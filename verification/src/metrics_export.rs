//! Aggregation of recorded metrics into breakdown trees, and the text
//! helpers of the CSV export.
use vstd::prelude::*;
use crate::assoc::{
    assoc_map, distinct_keys, find_key, lemma_assoc_dom, lemma_assoc_index, lemma_assoc_push,
    lemma_assoc_remove, lemma_assoc_update, lemma_distinct_push,
};
use crate::glob::glob;
use crate::metric_spec::{
    BreakdownLabel, MetricSpec, CounterBreakdown, CounterValue, deep_wf, label_key_of, lemma_deep_wf_entries, sort_order_of,
};
use crate::text::{
    decimal, push_decimal, split_chars, split_on, str_chars, string_from_chars, string_push,
    lemma_split_on_nonempty,
};

verus! {

/// Metadata about a metric key for breakdown purposes.
#[derive(Debug, Clone)]
pub struct KeyMetadata {
    /// The metric name without labels.
    pub name: String,
    /// Labels as key-value pairs.
    pub labels: Vec<(String, String)>,
}

/// The value of the first label whose key is `key`.
pub open spec fn label_lookup(labels: Seq<(String, String)>, key: Seq<char>) -> Option<Seq<char>>
    decreases labels.len(),
{
    if labels.len() == 0 {
        None
    } else if labels[0].0@ == key {
        Some(labels[0].1@)
    } else {
        label_lookup(labels.drop_first(), key)
    }
}

/// The text of an optional string slice.
pub open spec fn opt_text(o: Option<&str>) -> Option<Seq<char>> {
    match o {
        Some(s) => Some(s@),
        None => None,
    }
}

/// The comma-separated pieces of the "groups" label, or none without it.
pub open spec fn groups_of(labels: Seq<(String, String)>) -> Seq<Seq<char>> {
    match label_lookup(labels, "groups"@) {
        Some(v) => split_on(v, ','),
        None => Seq::empty(),
    }
}

/// The single value of a breakdown label (none for groups, which may have
/// several values).
pub open spec fn breakdown_value_of(labels: Seq<(String, String)>, l: BreakdownLabel) -> Option<
    Seq<char>,
> {
    match l {
        BreakdownLabel::Group => None,
        _ => label_lookup(labels, label_key_of(l)),
    }
}

/// All values of a breakdown label: the group pieces for groups, otherwise
/// the single value if present.
pub open spec fn breakdown_values_of(labels: Seq<(String, String)>, l: BreakdownLabel) -> Seq<
    Seq<char>,
> {
    match l {
        BreakdownLabel::Group => groups_of(labels),
        _ => match breakdown_value_of(labels, l) {
            Some(v) => seq![v],
            None => Seq::empty(),
        },
    }
}

/// Whether the labels give the breakdown label a value.
pub open spec fn has_breakdown(labels: Seq<(String, String)>, l: BreakdownLabel) -> bool {
    label_lookup(labels, label_key_of(l)) is Some
}

/// The label alone if the labels give it a value, else nothing.
pub open spec fn pick_label(labels: Seq<(String, String)>, l: BreakdownLabel) -> Seq<BreakdownLabel> {
    if has_breakdown(labels, l) {
        seq![l]
    } else {
        Seq::empty()
    }
}

/// The breakdown labels with values, in the order node, node type, group,
/// route type, payload type, payload hash.
pub open spec fn available_labels_of(labels: Seq<(String, String)>) -> Seq<BreakdownLabel> {
    pick_label(labels, BreakdownLabel::Node) + pick_label(labels, BreakdownLabel::NodeType)
        + pick_label(labels, BreakdownLabel::Group) + pick_label(labels, BreakdownLabel::RouteType)
        + pick_label(labels, BreakdownLabel::PayloadType) + pick_label(
        labels,
        BreakdownLabel::PayloadHash,
    )
}

/// The strings of a vector, as character sequences.
pub open spec fn texts(v: Seq<String>) -> Seq<Seq<char>> {
    v.map_values(|s: String| s@)
}

proof fn lemma_lookup_skip(labels: Seq<(String, String)>, key: Seq<char>, i: int)
    requires
        0 <= i < labels.len(),
        labels[i].0@ != key,
    ensures
        label_lookup(labels.subrange(i, labels.len() as int), key) == label_lookup(
            labels.subrange(i + 1, labels.len() as int),
            key,
        ),
{
    let s = labels.subrange(i, labels.len() as int);
    assert(s[0] == labels[i]);
    assert(s.drop_first() =~= labels.subrange(i + 1, labels.len() as int));
}

impl KeyMetadata {
    /// Get any label value by key: the first label with that key.
    pub fn label_value(&self, key: &str) -> (r: Option<&str>)
        ensures
            opt_text(r) == label_lookup(self.labels@, key@),
    {
        let k = key.to_owned();
        let mut i: usize = 0;
        assert(self.labels@.subrange(0, self.labels@.len() as int) =~= self.labels@);
        while i < self.labels.len()
            invariant
                i <= self.labels@.len(),
                k@ == key@,
                label_lookup(self.labels@, key@) == label_lookup(
                    self.labels@.subrange(i as int, self.labels@.len() as int),
                    key@,
                ),
            decreases self.labels@.len() - i,
        {
            if self.labels[i].0 == k {
                let ghost s = self.labels@.subrange(i as int, self.labels@.len() as int);
                assert(s[0] == self.labels@[i as int]);
                return Some(self.labels[i].1.as_str());
            }
            proof {
                lemma_lookup_skip(self.labels@, key@, i as int);
            }
            i = i + 1;
        }
        None
    }

    /// Get the "node" label value if present.
    pub fn node(&self) -> (r: Option<&str>)
        ensures
            opt_text(r) == label_lookup(self.labels@, "node"@),
    {
        self.label_value("node")
    }

    /// Get the "node_type" label value if present.
    pub fn node_type(&self) -> (r: Option<&str>)
        ensures
            opt_text(r) == label_lookup(self.labels@, "node_type"@),
    {
        self.label_value("node_type")
    }

    /// Get the "groups" label value split at commas; empty without the label.
    pub fn groups(&self) -> (r: Vec<String>)
        ensures
            texts(r@) == groups_of(self.labels@),
    {
        match self.label_value("groups") {
            Some(v) => {
                let chars = str_chars(v);
                let parts = split_chars(chars.as_slice(), ',');
                let mut out: Vec<String> = Vec::new();
                let mut i: usize = 0;
                while i < parts.len()
                    invariant
                        i <= parts@.len(),
                        chars@ == v@,
                        parts@.len() == split_on(v@, ',').len(),
                        forall|k: int| 0 <= k < parts@.len() ==> (#[trigger] parts@[k])@ == split_on(v@, ',')[k],
                        texts(out@) == split_on(v@, ',').take(i as int),
                    decreases parts@.len() - i,
                {
                    let piece = string_from_chars(parts[i].as_slice());
                    let ghost before = out@;
                    out.push(piece);
                    assert(texts(out@) =~= texts(before).push(piece@));
                    assert(texts(out@) =~= split_on(v@, ',').take(i + 1));
                    i = i + 1;
                }
                assert(split_on(v@, ',').take(parts@.len() as int) =~= split_on(v@, ','));
                out
            },
            None => {
                let out: Vec<String> = Vec::new();
                assert(texts(out@) =~= Seq::<Seq<char>>::empty());
                out
            },
        }
    }

    /// Get the "route_type" label value if present.
    pub fn route_type(&self) -> (r: Option<&str>)
        ensures
            opt_text(r) == label_lookup(self.labels@, "route_type"@),
    {
        self.label_value("route_type")
    }

    /// Get the "payload_type" label value if present.
    pub fn payload_type(&self) -> (r: Option<&str>)
        ensures
            opt_text(r) == label_lookup(self.labels@, "payload_type"@),
    {
        self.label_value("payload_type")
    }

    /// Get the "payload_hash" label value if present.
    pub fn payload_hash(&self) -> (r: Option<&str>)
        ensures
            opt_text(r) == label_lookup(self.labels@, "payload_hash"@),
    {
        self.label_value("payload_hash")
    }

    /// Get the value for a breakdown label (none for groups, which are
    /// multi-valued).
    pub fn breakdown_value(&self, label: BreakdownLabel) -> (r: Option<&str>)
        ensures
            opt_text(r) == breakdown_value_of(self.labels@, label),
    {
        match label {
            BreakdownLabel::Node => self.node(),
            BreakdownLabel::NodeType => self.node_type(),
            BreakdownLabel::Group => None,
            BreakdownLabel::RouteType => self.route_type(),
            BreakdownLabel::PayloadType => self.payload_type(),
            BreakdownLabel::PayloadHash => self.payload_hash(),
        }
    }

    /// Get all breakdown values for a label (several for groups).
    pub fn breakdown_values(&self, label: BreakdownLabel) -> (r: Vec<String>)
        ensures
            texts(r@) == breakdown_values_of(self.labels@, label),
    {
        match label {
            BreakdownLabel::Group => self.groups(),
            _ => {
                let mut out: Vec<String> = Vec::new();
                match self.breakdown_value(label) {
                    Some(v) => {
                        out.push(v.to_owned());
                    },
                    None => {},
                }
                assert(texts(out@) =~= breakdown_values_of(self.labels@, label));
                out
            },
        }
    }

    /// Get all breakdown labels that have values in this metadata.
    pub fn available_breakdown_labels(&self) -> (r: Vec<BreakdownLabel>)
        ensures
            r@ == available_labels_of(self.labels@),
    {
        let mut labels: Vec<BreakdownLabel> = Vec::new();
        let ghost ls = self.labels@;
        if self.node().is_some() {
            labels.push(BreakdownLabel::Node);
        }
        assert(labels@ =~= pick_label(ls, BreakdownLabel::Node));
        if self.node_type().is_some() {
            labels.push(BreakdownLabel::NodeType);
        }
        assert(labels@ =~= pick_label(ls, BreakdownLabel::Node) + pick_label(ls, BreakdownLabel::NodeType));
        let g = self.groups();
        proof {
            if let Some(v) = label_lookup(ls, "groups"@) {
                lemma_split_on_nonempty(v, ',');
            }
        }
        assert(texts(g@).len() == g@.len());
        if g.len() > 0 {
            labels.push(BreakdownLabel::Group);
        }
        assert(labels@ =~= pick_label(ls, BreakdownLabel::Node) + pick_label(ls, BreakdownLabel::NodeType)
            + pick_label(ls, BreakdownLabel::Group));
        if self.route_type().is_some() {
            labels.push(BreakdownLabel::RouteType);
        }
        if self.payload_type().is_some() {
            labels.push(BreakdownLabel::PayloadType);
        }
        if self.payload_hash().is_some() {
            labels.push(BreakdownLabel::PayloadHash);
        }
        assert(labels@ =~= available_labels_of(ls));
        labels
    }
}

/// Whether some metric of the data gives the breakdown label a value.
pub open spec fn label_in_data<V>(data: Seq<(KeyMetadata, V)>, l: BreakdownLabel) -> bool {
    exists|i: int| 0 <= i < data.len() && has_breakdown((#[trigger] data[i]).0.labels@, l)
}

fn label_present<V>(data: &[(KeyMetadata, V)], l: BreakdownLabel) -> (b: bool)
    ensures
        b == label_in_data(data@, l),
{
    let mut i: usize = 0;
    while i < data.len()
        invariant
            i <= data@.len(),
            forall|j: int| 0 <= j < i ==> !has_breakdown((#[trigger] data@[j]).0.labels@, l),
        decreases data@.len() - i,
    {
        if data[i].0.label_value(l.label_key()).is_some() {
            return true;
        }
        i = i + 1;
    }
    false
}

/// The label alone if some metric of the data has it, else nothing.
pub open spec fn pick_in_data<V>(data: Seq<(KeyMetadata, V)>, l: BreakdownLabel) -> Seq<BreakdownLabel> {
    if label_in_data(data, l) {
        seq![l]
    } else {
        Seq::empty()
    }
}

/// The label of sort order `k + 1`.
pub open spec fn label_of_order(k: nat) -> BreakdownLabel {
    if k == 0 {
        BreakdownLabel::Group
    } else if k == 1 {
        BreakdownLabel::NodeType
    } else if k == 2 {
        BreakdownLabel::Node
    } else if k == 3 {
        BreakdownLabel::RouteType
    } else if k == 4 {
        BreakdownLabel::PayloadType
    } else {
        BreakdownLabel::PayloadHash
    }
}

/// The labels of the first `k` sort orders that some metric of the data has.
pub open spec fn collected_upto<V>(data: Seq<(KeyMetadata, V)>, k: nat) -> Seq<BreakdownLabel>
    decreases k,
{
    if k == 0 {
        Seq::empty()
    } else {
        collected_upto(data, (k - 1) as nat) + pick_in_data(data, label_of_order((k - 1) as nat))
    }
}

/// The breakdown labels that some metric of the data has, in sort order.
pub open spec fn collected_labels<V>(data: Seq<(KeyMetadata, V)>) -> Seq<BreakdownLabel> {
    pick_in_data(data, BreakdownLabel::Group) + pick_in_data(data, BreakdownLabel::NodeType)
        + pick_in_data(data, BreakdownLabel::Node) + pick_in_data(data, BreakdownLabel::RouteType)
        + pick_in_data(data, BreakdownLabel::PayloadType) + pick_in_data(
        data,
        BreakdownLabel::PayloadHash,
    )
}

/// Collect all breakdown labels that some metric of the counter data has,
/// in the preferred nesting order (by sort order): group, node type, node,
/// route type, payload type, payload hash.
pub fn collect_available_labels_counter(data: &[(KeyMetadata, u64)]) -> (r: Vec<BreakdownLabel>)
    ensures
        r@ == collected_labels(data@),
        forall|l: BreakdownLabel| r@.contains(l) <==> label_in_data(data@, l),
        forall|i: int, j: int|
            0 <= i < j < r@.len() ==> sort_order_of(#[trigger] r@[i]) < sort_order_of(#[trigger] r@[j]),
{
    collect_available_labels(data)
}

/// Collect all breakdown labels that some metric of the data has, whatever
/// its values, in the preferred nesting order (by sort order): group, node
/// type, node, route type, payload type, payload hash.
pub fn collect_available_labels<V>(data: &[(KeyMetadata, V)]) -> (r: Vec<BreakdownLabel>)
    ensures
        r@ == collected_labels(data@),
        forall|l: BreakdownLabel| r@.contains(l) <==> label_in_data(data@, l),
        forall|i: int, j: int|
            0 <= i < j < r@.len() ==> sort_order_of(#[trigger] r@[i]) < sort_order_of(#[trigger] r@[j]),
{
    let order = [
        BreakdownLabel::Group,
        BreakdownLabel::NodeType,
        BreakdownLabel::Node,
        BreakdownLabel::RouteType,
        BreakdownLabel::PayloadType,
        BreakdownLabel::PayloadHash,
    ];
    let mut result: Vec<BreakdownLabel> = Vec::new();
    let mut k: usize = 0;
    while k < 6
        invariant
            k <= 6,
            order@ == seq![
                BreakdownLabel::Group,
                BreakdownLabel::NodeType,
                BreakdownLabel::Node,
                BreakdownLabel::RouteType,
                BreakdownLabel::PayloadType,
                BreakdownLabel::PayloadHash,
            ],
            forall|j: int| 0 <= j < 6 ==> sort_order_of(#[trigger] order@[j]) == j + 1,
            forall|l: BreakdownLabel|
                result@.contains(l) <==> (label_in_data(data@, l) && sort_order_of(l) <= k),
            result@ == collected_upto(data@, k as nat),
            forall|i: int| 0 <= i < result@.len() ==> sort_order_of(#[trigger] result@[i]) <= k,
            forall|i: int, j: int|
                0 <= i < j < result@.len() ==> sort_order_of(#[trigger] result@[i]) < sort_order_of(
                    #[trigger] result@[j],
                ),
        decreases 6 - k,
    {
        let l = order[k];
        assert(l == label_of_order(k as nat));
        if label_present(data, l) {
            let ghost before = result@;
            result.push(l);
            assert forall|m: BreakdownLabel| result@.contains(m) <==> (label_in_data(data@, m)
                && sort_order_of(m) <= k + 1) by {
                if result@.contains(m) && !before.contains(m) {
                    let i = choose|i: int| 0 <= i < result@.len() && result@[i] == m;
                    assert(i == before.len());
                }
                if before.contains(m) {
                    let i = choose|i: int| 0 <= i < before.len() && before[i] == m;
                    assert(result@[i] == m);
                }
                if sort_order_of(m) == k + 1 {
                    assert(result@[before.len() as int] == m);
                }
            }
        } else {
            assert forall|m: BreakdownLabel| result@.contains(m) <==> (label_in_data(data@, m)
                && sort_order_of(m) <= k + 1) by {
                if sort_order_of(m) == k + 1 {
                    assert(m == l);
                }
            }
        }
        assert(result@ =~= collected_upto(data@, (k + 1) as nat));
        k = k + 1;
    }
    assert forall|l: BreakdownLabel| sort_order_of(l) <= 6 by {}
    assert(collected_upto(data@, 6) =~= collected_labels(data@)) by {
        reveal_with_fuel(collected_upto, 7);
    }
    result
}

/// How often `k` occurs in `s`.
pub open spec fn count_in(s: Seq<Seq<char>>, k: Seq<char>) -> nat
    decreases s.len(),
{
    if s.len() == 0 {
        0
    } else {
        count_in(s.drop_last(), k) + if s.last() == k {
            1nat
        } else {
            0nat
        }
    }
}

/// The key under which metrics without a value for a label are filed.
pub open spec fn unknown_key() -> Seq<char> {
    "_unknown_"@
}

/// The group keys under which a metric is filed for a label: its values for
/// the label, or the unknown key if it has none.
pub open spec fn group_keys(labels: Seq<(String, String)>, l: BreakdownLabel) -> Seq<Seq<char>> {
    let v = breakdown_values_of(labels, l);
    if v.len() == 0 {
        seq![unknown_key()]
    } else {
        v
    }
}

/// Every position listed is a position of the data.
pub open spec fn valid_positions<V>(data: Seq<(KeyMetadata, V)>, idx: Seq<usize>) -> bool {
    forall|j: int| 0 <= j < idx.len() ==> (#[trigger] idx[j]) < data.len()
}

/// The positions among `idx` of the metrics filed under key `k`, in order,
/// each repeated as often as the metric lists `k`.
pub open spec fn group_of<V>(data: Seq<(KeyMetadata, V)>, idx: Seq<usize>, l: BreakdownLabel, k: Seq<char>) -> Seq<
    usize,
>
    decreases idx.len(),
{
    if idx.len() == 0 {
        Seq::empty()
    } else {
        let p = idx.last();
        group_of(data, idx.drop_last(), l, k) + Seq::new(
            count_in(group_keys(data[p as int].0.labels@, l), k),
            |_j: int| p,
        )
    }
}

/// All group keys of the metrics at the positions `idx`.
pub open spec fn all_group_keys<V>(data: Seq<(KeyMetadata, V)>, idx: Seq<usize>, l: BreakdownLabel) -> Set<
    Seq<char>,
> {
    Set::new(
        |k: Seq<char>|
            exists|j: int| 0 <= j < idx.len() && group_keys(data[idx[j] as int].0.labels@, l).contains(k),
    )
}

/// The group keys other than the unknown key.
pub open spec fn real_keys<V>(data: Seq<(KeyMetadata, V)>, idx: Seq<usize>, l: BreakdownLabel) -> Set<
    Seq<char>,
> {
    all_group_keys(data, idx, l).remove(unknown_key())
}

/// The sum of the values at the positions `idx`.
pub open spec fn value_sum(data: Seq<(KeyMetadata, u64)>, idx: Seq<usize>) -> int
    decreases idx.len(),
{
    if idx.len() == 0 {
        0
    } else {
        value_sum(data, idx.drop_last()) + data[idx.last() as int].1
    }
}

proof fn lemma_count_in_push(s: Seq<Seq<char>>, x: Seq<char>, k: Seq<char>)
    ensures
        count_in(s.push(x), k) == count_in(s, k) + if x == k {
            1nat
        } else {
            0nat
        },
{
    assert(s.push(x).drop_last() =~= s);
}

proof fn lemma_count_in_zero(s: Seq<Seq<char>>, k: Seq<char>)
    requires
        !s.contains(k),
    ensures
        count_in(s, k) == 0,
    decreases s.len(),
{
    if s.len() > 0 {
        assert(!s.drop_last().contains(k)) by {
            if s.drop_last().contains(k) {
                let i = choose|i: int| 0 <= i < s.drop_last().len() && #[trigger] s.drop_last()[i] == k;
                assert(s[i] == k);
            }
        }
        lemma_count_in_zero(s.drop_last(), k);
        assert(s.last() != k) by {
            assert(s[s.len() - 1] == s.last());
        }
    }
}

proof fn lemma_group_of_absent<V>(data: Seq<(KeyMetadata, V)>, idx: Seq<usize>, l: BreakdownLabel, k: Seq<char>)
    requires
        !all_group_keys(data, idx, l).contains(k),
    ensures
        group_of(data, idx, l, k) == Seq::<usize>::empty(),
    decreases idx.len(),
{
    if idx.len() > 0 {
        let d = idx.drop_last();
        assert(!all_group_keys(data, d, l).contains(k)) by {
            if all_group_keys(data, d, l).contains(k) {
                let i = choose|i: int|
                    0 <= i < d.len() && #[trigger] group_keys(data[d[i] as int].0.labels@, l).contains(k);
                assert(d[i] == idx[i]);
            }
        }
        lemma_group_of_absent(data, d, l, k);
        let last_keys = group_keys(data[idx.last() as int].0.labels@, l);
        assert(!last_keys.contains(k)) by {
            assert(idx[idx.len() - 1] == idx.last());
        }
        lemma_count_in_zero(last_keys, k);
        assert(group_of(data, idx, l, k) =~= Seq::<usize>::empty());
    }
}

/// The keys of a metric for a label, as strings.
fn item_group_keys(meta: &KeyMetadata, label: BreakdownLabel) -> (keys: Vec<String>)
    ensures
        texts(keys@) == group_keys(meta.labels@, label),
{
    let v = meta.breakdown_values(label);
    if v.len() == 0 {
        let mut u: Vec<String> = Vec::new();
        u.push("_unknown_".to_owned());
        assert(texts(u@) =~= seq![unknown_key()]);
        u
    } else {
        v
    }
}

/// Group the metrics at positions `idx` by their keys for a label.
fn group_by_label<V>(data: &[(KeyMetadata, V)], idx: &Vec<usize>, label: BreakdownLabel) -> (g: Vec<
    (String, Vec<usize>),
>)
    requires
        valid_positions(data@, idx@),
    ensures
        distinct_keys(g@),
        forall|k: Seq<char>|
            assoc_map(g@).dom().contains(k) <==> all_group_keys(data@, idx@, label).contains(k),
        forall|k: Seq<char>| #[trigger]
            assoc_map(g@).dom().contains(k) ==> assoc_map(g@)[k]@ == group_of(data@, idx@, label, k),
{
    let mut g: Vec<(String, Vec<usize>)> = Vec::new();
    let mut j: usize = 0;
    while j < idx.len()
        invariant
            j <= idx@.len(),
            valid_positions(data@, idx@),
            distinct_keys(g@),
            forall|k: Seq<char>|
                assoc_map(g@).dom().contains(k) <==> all_group_keys(data@, idx@.take(j as int), label).contains(k),
            forall|k: Seq<char>| #[trigger]
                assoc_map(g@).dom().contains(k) ==> assoc_map(g@)[k]@ == group_of(data@, idx@.take(j as int), label, k),
        decreases idx@.len() - j,
    {
        let p = idx[j];
        let keys = item_group_keys(&data[p].0, label);
        let ghost item_keys = group_keys(data@[p as int].0.labels@, label);
        let ghost prefix = idx@.take(j as int);
        let mut t: usize = 0;
        while t < keys.len()
            invariant
                t <= keys@.len(),
                texts(keys@) == item_keys,
                distinct_keys(g@),
                forall|k: Seq<char>|
                    assoc_map(g@).dom().contains(k) <==> (all_group_keys(data@, prefix, label).contains(k)
                        || item_keys.take(t as int).contains(k)),
                forall|k: Seq<char>| #[trigger]
                    assoc_map(g@).dom().contains(k) ==> assoc_map(g@)[k]@ == group_of(data@, prefix, label, k)
                        + Seq::new(count_in(item_keys.take(t as int), k), |_j: int| p),
            decreases keys@.len() - t,
        {
            let key = &keys[t];
            let ghost gk = key@;
            assert(item_keys[t as int] == gk);
            assert(item_keys.take(t + 1) =~= item_keys.take(t as int).push(gk));
            let ghost before = g@;
            match find_key(&g, key) {
                Some(pos) => {
                    proof {
                        lemma_assoc_index(before, pos as int);
                    }
                    let (gkey, mut list) = g.remove(pos);
                    list.push(p);
                    g.insert(pos, (gkey, list));
                    proof {
                        assert(g@ =~= before.update(pos as int, g@[pos as int]));
                        lemma_assoc_update(before, pos as int, g@[pos as int]);
                        let old_list = before[pos as int].1@;
                        let n = count_in(item_keys.take(t as int), gk);
                        lemma_count_in_push(item_keys.take(t as int), gk, gk);
                        assert(Seq::new(n + 1, |_j: int| p) =~= Seq::new(n, |_j: int| p).push(p));
                        assert(old_list == group_of(data@, prefix, label, gk) + Seq::new(n, |_j: int| p));
                        assert(old_list.push(p) =~= group_of(data@, prefix, label, gk) + Seq::new(n + 1, |_j: int| p));
                    }
                },
                None => {
                    let mut list: Vec<usize> = Vec::new();
                    list.push(p);
                    let entry = (key.clone(), list);
                    proof {
                        lemma_assoc_push(before, entry);
                        lemma_distinct_push(before, entry);
                        lemma_count_in_zero(item_keys.take(t as int), gk);
                        lemma_count_in_push(item_keys.take(t as int), gk, gk);
                        lemma_group_of_absent(data@, prefix, label, gk);
                        assert(entry.1@ =~= group_of(data@, prefix, label, gk) + Seq::new(1, |_j: int| p));
                    }
                    g.push(entry);
                },
            }
            proof {
                assert forall|k: Seq<char>|
                    assoc_map(g@).dom().contains(k) <==> (all_group_keys(data@, prefix, label).contains(k)
                        || item_keys.take(t + 1).contains(k)) by {
                    if item_keys.take(t + 1).contains(k) && !item_keys.take(t as int).contains(k) {
                        let i = choose|i: int| 0 <= i < t + 1 && #[trigger] item_keys.take(t + 1)[i] == k;
                        if i < t {
                            assert(item_keys.take(t as int)[i] == k);
                        }
                    }
                    if item_keys.take(t as int).contains(k) {
                        let i = choose|i: int| 0 <= i < t && #[trigger] item_keys.take(t as int)[i] == k;
                        assert(item_keys.take(t + 1)[i] == k);
                    }
                    if k == gk {
                        assert(item_keys.take(t + 1)[t as int] == k);
                    }
                }
                assert forall|k: Seq<char>| #[trigger] assoc_map(g@).dom().contains(k) implies assoc_map(g@)[k]@
                    == group_of(data@, prefix, label, k) + Seq::new(
                    count_in(item_keys.take(t + 1), k),
                    |_j: int| p,
                ) by {
                    lemma_count_in_push(item_keys.take(t as int), gk, k);
                    if k == gk {
                        assert(Seq::new(count_in(item_keys.take(t + 1), k), |_j: int| p) =~= Seq::new(
                            count_in(item_keys.take(t as int), k),
                            |_j: int| p,
                        ).push(p));
                    } else {
                        assert(assoc_map(before).dom().contains(k));
                    }
                }
            }
            t = t + 1;
        }
        proof {
            assert(item_keys.take(keys@.len() as int) =~= item_keys);
            assert(idx@.take(j + 1).drop_last() =~= prefix);
            assert(idx@.take(j + 1).last() == p);
            assert forall|k: Seq<char>|
                all_group_keys(data@, idx@.take(j + 1), label).contains(k) <==> (all_group_keys(
                    data@,
                    prefix,
                    label,
                ).contains(k) || item_keys.contains(k)) by {
                let nxt = idx@.take(j + 1);
                if all_group_keys(data@, nxt, label).contains(k) {
                    let i = choose|i: int|
                        0 <= i < nxt.len() && #[trigger] group_keys(data@[nxt[i] as int].0.labels@, label).contains(k);
                    if i < j {
                        assert(prefix[i] == nxt[i]);
                        assert(all_group_keys(data@, prefix, label).contains(k));
                    }
                }
                if all_group_keys(data@, prefix, label).contains(k) {
                    let i = choose|i: int|
                        0 <= i < prefix.len() && #[trigger] group_keys(data@[prefix[i] as int].0.labels@, label).contains(k);
                    assert(prefix[i] == nxt[i]);
                    assert(all_group_keys(data@, nxt, label).contains(k));
                }
                if item_keys.contains(k) {
                    assert(nxt[j as int] == p);
                    assert(all_group_keys(data@, nxt, label).contains(k));
                }
            }
        }
        j = j + 1;
    }
    assert(idx@.take(idx@.len() as int) =~= idx@);
    g
}

/// The groups of the metrics at positions `idx` for a label: each value of
/// the label other than the unknown key, with the positions of the metrics
/// filed under it (a metric listing a value twice appears twice).
pub fn breakdown_groups<V>(data: &[(KeyMetadata, V)], idx: &Vec<usize>, label: BreakdownLabel) -> (g: Vec<
    (String, Vec<usize>),
>)
    requires
        valid_positions(data@, idx@),
    ensures
        distinct_keys(g@),
        forall|k: Seq<char>| assoc_map(g@).dom().contains(k) <==> real_keys(data@, idx@, label).contains(k),
        forall|k: Seq<char>| #[trigger]
            assoc_map(g@).dom().contains(k) ==> assoc_map(g@)[k]@ == group_of(data@, idx@, label, k),
{
    let mut grouped = group_by_label(data, idx, label);
    let unknown = "_unknown_".to_owned();
    let ghost g_all = grouped@;
    proof {
        reveal_strlit("_unknown_");
    }
    match find_key(&grouped, &unknown) {
        Some(p) => {
            proof {
                lemma_assoc_remove(g_all, p as int);
            }
            grouped.remove(p);
        },
        None => {},
    }
    grouped
}

/// Positions listed in a group are positions listed in `idx`.
proof fn lemma_group_valid<V>(data: Seq<(KeyMetadata, V)>, idx: Seq<usize>, l: BreakdownLabel, k: Seq<char>)
    requires
        valid_positions(data, idx),
    ensures
        valid_positions(data, group_of(data, idx, l, k)),
    decreases idx.len(),
{
    if idx.len() > 0 {
        let d = idx.drop_last();
        assert(valid_positions(data, d)) by {
            assert forall|j: int| 0 <= j < d.len() implies (#[trigger] d[j]) < data.len() by {
                assert(d[j] == idx[j]);
            }
        }
        lemma_group_valid(data, d, l, k);
        assert(idx[idx.len() - 1] == idx.last());
    }
}

proof fn lemma_value_sum_take(data: Seq<(KeyMetadata, u64)>, idx: Seq<usize>, j: int)
    requires
        0 <= j < idx.len(),
    ensures
        value_sum(data, idx.take(j + 1)) == value_sum(data, idx.take(j)) + data[idx[j] as int].1,
        value_sum(data, idx.take(j + 1)) <= value_sum(data, idx),
    decreases idx.len() - j,
{
    assert(idx.take(j + 1).drop_last() =~= idx.take(j));
    assert(idx.take(j + 1).last() == idx[j]);
    if j + 1 < idx.len() {
        lemma_value_sum_take(data, idx, j + 1);
    } else {
        assert(idx.take(j + 1) =~= idx);
    }
}

/// The sum of the values at the positions `idx`.
fn sum_at(data: &[(KeyMetadata, u64)], idx: &Vec<usize>) -> (t: u64)
    requires
        valid_positions(data@, idx@),
        value_sum(data@, idx@) <= u64::MAX,
    ensures
        t == value_sum(data@, idx@),
{
    let mut total: u64 = 0;
    let mut j: usize = 0;
    assert(idx@.take(0) =~= Seq::<usize>::empty());
    while j < idx.len()
        invariant
            j <= idx@.len(),
            valid_positions(data@, idx@),
            value_sum(data@, idx@) <= u64::MAX,
            total == value_sum(data@, idx@.take(j as int)),
        decreases idx@.len() - j,
    {
        proof {
            lemma_value_sum_take(data@, idx@, j as int);
        }
        total = total + data[idx[j]].1;
        j = j + 1;
    }
    assert(idx@.take(idx@.len() as int) =~= idx@);
    total
}

/// The counters filed under the label values of a breakdown, by value.
pub open spec fn entries_of(b: Map<Seq<char>, CounterBreakdown>, key: Seq<char>) -> Map<
    Seq<char>,
    Box<CounterValue>,
> {
    if b.dom().contains(key) {
        assoc_map(b[key]@)
    } else {
        Map::empty()
    }
}

/// The total a counter under group key `k` starts from: its present total,
/// or for a new counter the sum of the values filed under `k`.
pub open spec fn start_total(
    m0: Map<Seq<char>, Box<CounterValue>>,
    data: Seq<(KeyMetadata, u64)>,
    idx: Seq<usize>,
    l: BreakdownLabel,
    k: Seq<char>,
) -> u64 {
    if m0.dom().contains(k) {
        m0[k].total
    } else {
        value_sum(data, group_of(data, idx, l, k)) as u64
    }
}

/// The breakdowns a counter under group key `k` starts from: its present
/// ones, or none for a new counter.
pub open spec fn start_breakdowns(m0: Map<Seq<char>, Box<CounterValue>>, k: Seq<char>) -> Map<
    Seq<char>,
    CounterBreakdown,
> {
    if m0.dom().contains(k) {
        m0[k].breakdowns()
    } else {
        Map::empty()
    }
}

/// The sums of every group at every level of the breakdowns `bds[depth..]`
/// fit in 64 bits.
pub open spec fn sums_fit(data: Seq<(KeyMetadata, u64)>, idx: Seq<usize>, bds: Seq<BreakdownLabel>, depth: nat) -> bool
    decreases bds.len() - depth,
{
    if depth >= bds.len() {
        true
    } else {
        forall|k: Seq<char>|
            #![trigger group_of(data, idx, bds[depth as int], k)]
            real_keys(data, idx, bds[depth as int]).contains(k) ==> value_sum(
                data,
                group_of(data, idx, bds[depth as int], k),
            ) <= u64::MAX && sums_fit(data, group_of(data, idx, bds[depth as int], k), bds, depth + 1)
    }
}

/// `v1` is the outcome of applying the breakdowns `bds[depth..]` to a
/// counter with total `t0` and breakdowns `b0`, for the metrics at positions
/// `idx`. At each level the metrics are grouped by their values for the
/// label (each group value, other than the unknown key, becomes a key of the
/// label's breakdown); a counter already present under a key is kept and
/// refined further, a new one starts with the sum of its group; when no
/// metric has a value for the label, nothing changes.
pub open spec fn applied(
    t0: u64,
    b0: Map<Seq<char>, CounterBreakdown>,
    v1: CounterValue,
    data: Seq<(KeyMetadata, u64)>,
    idx: Seq<usize>,
    bds: Seq<BreakdownLabel>,
    depth: nat,
) -> bool
    decreases bds.len() - depth,
{
    if depth >= bds.len() {
        v1.total == t0 && v1.breakdowns() == b0
    } else if real_keys(data, idx, bds[depth as int]) == Set::<Seq<char>>::empty() {
        v1.total == t0 && v1.breakdowns() == b0
    } else {
        let l = bds[depth as int];
        let key = label_key_of(l);
        let m0 = entries_of(b0, key);
        let b1 = v1.breakdowns();
        let m1 = assoc_map(b1[key]@);
        &&& v1.total == t0
        &&& b1.dom().contains(key)
        &&& b1 == b0.insert(key, b1[key])
        &&& m1.dom() == m0.dom().union(real_keys(data, idx, l))
        &&& forall|k: Seq<char>|
            #![trigger m1[k]]
            m0.dom().contains(k) && !real_keys(data, idx, l).contains(k) ==> m1[k] == m0[k]
        &&& forall|k: Seq<char>|
            #![trigger m1[k]]
            real_keys(data, idx, l).contains(k) ==> applied(
                start_total(m0, data, idx, l, k),
                start_breakdowns(m0, k),
                *m1[k],
                data,
                group_of(data, idx, l, k),
                bds,
                depth + 1,
            )
    }
}

/// Apply the breakdowns `bds[depth..]` for the metrics at positions `idx`.
fn apply_at(
    value: &mut CounterValue,
    data: &[(KeyMetadata, u64)],
    idx: &Vec<usize>,
    bds: &[BreakdownLabel],
    depth: usize,
)
    requires
        deep_wf(*old(value)),
        valid_positions(data@, idx@),
        sums_fit(data@, idx@, bds@, depth as nat),
    ensures
        deep_wf(*final(value)),
        applied(old(value).total, old(value).breakdowns(), *final(value), data@, idx@, bds@, depth as nat),
    decreases bds@.len() - depth,
{
    if depth >= bds.len() {
        return;
    }
    let label = bds[depth];
    let ghost l = label;
    let ghost key = label_key_of(label);
    let grouped = breakdown_groups(data, idx, label);
    let ghost gm = assoc_map(grouped@);
    if grouped.len() == 0 {
        proof {
            assert(real_keys(data@, idx@, l) =~= Set::<Seq<char>>::empty()) by {
                assert forall|k: Seq<char>| !real_keys(data@, idx@, l).contains(k) by {
                    lemma_assoc_dom(grouped@, k);
                }
            }
        }
        return;
    }
    proof {
        lemma_assoc_index(grouped@, 0);
        assert(real_keys(data@, idx@, l).contains(grouped@[0].0@));
        lemma_deep_wf_entries(*old(value));
    }
    let m = value.get_or_create_breakdown(label);
    let ghost m0 = assoc_map(m@);
    proof {
        assert(m0 == entries_of(old(value).breakdowns(), key));
        assert forall|j: int| #![trigger m@[j]] 0 <= j < m@.len() implies deep_wf(*m@[j].1) by {
            if old(value).breakdowns().dom().contains(key) {
                assert(old(value).breakdowns()[key]@[j] == m@[j]);
            }
        }
        assert(grouped@.take(0) =~= Seq::<(String, Vec<usize>)>::empty());
        assert(assoc_map(grouped@.take(0)).dom() =~= Set::<Seq<char>>::empty());
        assert(assoc_map(m@).dom() =~= m0.dom().union(assoc_map(grouped@.take(0)).dom()));
    }
    let next = depth + 1;
    let mut g: usize = 0;
    while g < grouped.len()
        invariant
            g <= grouped@.len(),
            depth < bds@.len(),
            next == depth + 1,
            l == bds@[depth as int],
            valid_positions(data@, idx@),
            sums_fit(data@, idx@, bds@, depth as nat),
            distinct_keys(grouped@),
            gm == assoc_map(grouped@),
            forall|k: Seq<char>| gm.dom().contains(k) <==> real_keys(data@, idx@, l).contains(k),
            forall|k: Seq<char>| #[trigger] gm.dom().contains(k) ==> gm[k]@ == group_of(data@, idx@, l, k),
            distinct_keys(m@),
            forall|j: int| #![trigger m@[j]] 0 <= j < m@.len() ==> deep_wf(*m@[j].1),
            assoc_map(m@).dom() == m0.dom().union(assoc_map(grouped@.take(g as int)).dom()),
            forall|k: Seq<char>|
                #![trigger assoc_map(m@)[k]]
                m0.dom().contains(k) && !assoc_map(grouped@.take(g as int)).dom().contains(k)
                    ==> assoc_map(m@)[k] == m0[k],
            forall|k: Seq<char>|
                #![trigger assoc_map(m@)[k]]
                assoc_map(grouped@.take(g as int)).dom().contains(k) ==> applied(
                    start_total(m0, data@, idx@, l, k),
                    start_breakdowns(m0, k),
                    *assoc_map(m@)[k],
                    data@,
                    group_of(data@, idx@, l, k),
                    bds@,
                    depth as nat + 1,
                ),
        decreases grouped@.len() - g,
    {
        let ghost before = m@;
        let ghost done = assoc_map(grouped@.take(g as int));
        let gkey = grouped[g].0.clone();
        let ghost k = gkey@;
        proof {
            lemma_assoc_index(grouped@, g as int);
            lemma_group_valid(data@, idx@, l, k);
            assert(grouped@.take(g + 1) =~= grouped@.take(g as int).push(grouped@[g as int]));
            lemma_assoc_push(grouped@.take(g as int), grouped@[g as int]);
            assert(!done.dom().contains(k)) by {
                lemma_assoc_dom(grouped@.take(g as int), k);
                if exists|i: int| 0 <= i < g && (#[trigger] grouped@.take(g as int)[i]).0@ == k {
                    let i = choose|i: int| 0 <= i < g && (#[trigger] grouped@.take(g as int)[i]).0@ == k;
                    assert(grouped@[i] == grouped@.take(g as int)[i]);
                }
            }
            assert(real_keys(data@, idx@, l).contains(k));
            assert(group_of(data@, idx@, l, k) == group_of(data@, idx@, bds@[depth as int], k));
        }
        let total = sum_at(data, &grouped[g].1);
        match find_key(m, &gkey) {
            Some(p) => {
                proof {
                    lemma_assoc_index(before, p as int);
                }
                apply_at(&mut *m[p].1, data, &grouped[g].1, bds, next);
                proof {
                    lemma_assoc_update(before, p as int, m@[p as int]);
                    assert(m@ =~= before.update(p as int, m@[p as int]));
                }
            },
            None => {
                let entry = (gkey, Box::new(CounterValue::new(total)));
                proof {
                    lemma_assoc_push(before, entry);
                    lemma_distinct_push(before, entry);
                }
                m.push(entry);
                let p = m.len() - 1;
                let ghost mid = m@;
                proof {
                    lemma_assoc_index(mid, p as int);
                }
                apply_at(&mut *m[p].1, data, &grouped[g].1, bds, next);
                proof {
                    lemma_assoc_update(mid, p as int, m@[p as int]);
                    assert(m@ =~= mid.update(p as int, m@[p as int]));
                }
            },
        }
        g = g + 1;
    }
    proof {
        assert(grouped@.take(grouped@.len() as int) =~= grouped@);
        let ks = real_keys(data@, idx@, l);
        assert(gm.dom() =~= ks);
        let ov = *old(value);
        let fv = *final(value);
        let fm = *final(m);
        assert(fm == *m);
        assert(fv.breakdowns() == ov.breakdowns().insert(key, fm));
        assert(fv.wf());
        assert forall|k1: Seq<char>, j: int|
            #![trigger fv.breakdowns()[k1]@[j]]
            fv.breakdowns().dom().contains(k1) && 0 <= j < fv.breakdowns()[k1]@.len() implies deep_wf(
                *fv.breakdowns()[k1]@[j].1,
            ) by {
            if k1 == key {
                assert(fv.breakdowns()[k1]@[j] == m@[j]);
            } else {
                assert(fv.breakdowns()[k1] == ov.breakdowns()[k1]);
                assert(ov.breakdowns()[k1]@[j] == fv.breakdowns()[k1]@[j]);
            }
        }
        lemma_deep_wf_entries(fv);
        assert(ks != Set::<Seq<char>>::empty()) by {
            assert(ks.contains(grouped@[0].0@));
        }
        assert(assoc_map(fv.breakdowns()[key]@) == assoc_map(m@));
    }
}

/// The positions `0..n` in order.
pub open spec fn all_positions(n: nat) -> Seq<usize> {
    Seq::new(n, |i: int| i as usize)
}

/// Apply the breakdowns `breakdowns[depth..]` of all the data to a counter
/// (merging into breakdowns it already has): the metrics are grouped by
/// their value for `breakdowns[depth]`, each group refined by the next
/// label, and so on (see `applied`).
pub fn apply_counter_breakdowns(
    value: &mut CounterValue,
    data: &[(KeyMetadata, u64)],
    breakdowns: &[BreakdownLabel],
    depth: usize,
)
    requires
        deep_wf(*old(value)),
        sums_fit(data@, all_positions(data@.len()), breakdowns@, depth as nat),
    ensures
        deep_wf(*final(value)),
        applied(
            old(value).total,
            old(value).breakdowns(),
            *final(value),
            data@,
            all_positions(data@.len()),
            breakdowns@,
            depth as nat,
        ),
{
    let mut idx: Vec<usize> = Vec::new();
    let mut i: usize = 0;
    while i < data.len()
        invariant
            i <= data@.len(),
            idx@ == all_positions(i as nat),
        decreases data@.len() - i,
    {
        idx.push(i);
        assert(idx@ =~= all_positions(i as nat + 1));
        i = i + 1;
    }
    apply_at(value, data, &idx, breakdowns, depth);
}

/// Whether a CSV field must be quoted: it holds a comma, a double quote, a
/// line feed or a carriage return.
pub open spec fn needs_quoting(s: Seq<char>) -> bool {
    s.contains(',') || s.contains('"') || s.contains('\n') || s.contains('\r')
}

/// The text with every double quote doubled.
pub open spec fn double_quotes(s: Seq<char>) -> Seq<char>
    decreases s.len(),
{
    if s.len() == 0 {
        Seq::empty()
    } else {
        double_quotes(s.drop_last()) + if s.last() == '"' {
            seq!['"', '"']
        } else {
            seq![s.last()]
        }
    }
}

/// A CSV field: quoted, with inner quotes doubled, when it needs quoting;
/// otherwise the text itself.
pub open spec fn csv_field(s: Seq<char>) -> Seq<char> {
    if needs_quoting(s) {
        seq!['"'] + double_quotes(s) + seq!['"']
    } else {
        s
    }
}

/// Escape a CSV field if it contains special characters.
pub fn escape_csv_field(s: &str) -> (r: String)
    ensures
        r@ == csv_field(s@),
{
    let chars = str_chars(s);
    let mut special = false;
    let mut i: usize = 0;
    while i < chars.len()
        invariant
            i <= chars@.len(),
            chars@ == s@,
            special == needs_quoting(s@.take(i as int)),
        decreases chars@.len() - i,
    {
        let c = chars[i];
        let ghost pre = s@.take(i as int);
        assert(s@.take(i + 1) =~= pre.push(c));
        assert(needs_quoting(pre.push(c)) == (needs_quoting(pre) || c == ',' || c == '"' || c == '\n'
            || c == '\r')) by {
            assert(pre.push(c)[pre.len() as int] == c);
            assert forall|x: char| pre.push(c).contains(x) <==> (pre.contains(x) || x == c) by {
                if pre.push(c).contains(x) {
                    let j = choose|j: int| 0 <= j < pre.push(c).len() && pre.push(c)[j] == x;
                    if j < pre.len() {
                        assert(pre[j] == x);
                    }
                }
                if pre.contains(x) {
                    let j = choose|j: int| 0 <= j < pre.len() && pre[j] == x;
                    assert(pre.push(c)[j] == x);
                }
            }
        }
        if c == ',' || c == '"' || c == '\n' || c == '\r' {
            special = true;
        }
        i = i + 1;
    }
    assert(s@.take(s@.len() as int) =~= s@);
    if !special {
        return s.to_owned();
    }
    let mut out = String::new();
    string_push(&mut out, '"');
    let mut j: usize = 0;
    assert(s@.take(0) =~= Seq::<char>::empty());
    while j < chars.len()
        invariant
            j <= chars@.len(),
            chars@ == s@,
            out@ == seq!['"'] + double_quotes(s@.take(j as int)),
        decreases chars@.len() - j,
    {
        let c = chars[j];
        assert(s@.take(j + 1).drop_last() =~= s@.take(j as int));
        assert(s@.take(j + 1).last() == c);
        string_push(&mut out, c);
        if c == '"' {
            string_push(&mut out, '"');
        }
        assert(out@ =~= seq!['"'] + double_quotes(s@.take(j + 1)));
        j = j + 1;
    }
    string_push(&mut out, '"');
    assert(out@ =~= seq!['"'] + double_quotes(s@) + seq!['"']);
    out
}

/// The path of a child: the name under the root, or appended to the parent
/// path after a slash.
pub open spec fn child_path(parent: Seq<char>, name: Seq<char>) -> Seq<char> {
    if parent == seq!['/'] {
        seq!['/'] + name
    } else {
        parent + seq!['/'] + name
    }
}

/// Format a child path by appending a name to the parent path.
pub fn format_child_path(parent_path: &str, name: &str) -> (r: String)
    ensures
        r@ == child_path(parent_path@, name@),
{
    let parent = str_chars(parent_path);
    let root = parent.len() == 1 && parent[0] == '/';
    assert(root == (parent_path@ == seq!['/'])) by {
        if parent_path@ == seq!['/'] {
            assert(parent@.len() == 1 && parent@[0] == '/');
        }
        if root {
            assert(parent_path@ =~= seq!['/']);
        }
    }
    let mut out = if root {
        String::new()
    } else {
        parent_path.to_owned()
    };
    string_push(&mut out, '/');
    let name_chars = str_chars(name);
    let mut i: usize = 0;
    let ghost start = out@;
    while i < name_chars.len()
        invariant
            i <= name_chars@.len(),
            name_chars@ == name@,
            out@ == start + name@.take(i as int),
        decreases name_chars@.len() - i,
    {
        string_push(&mut out, name_chars[i]);
        assert(name@.take(i + 1) =~= name@.take(i as int).push(name_chars@[i as int]));
        assert(out@ =~= start + name@.take(i + 1));
        i = i + 1;
    }
    assert(name@.take(name@.len() as int) =~= name@);
    assert(out@ =~= child_path(parent_path@, name@));
    out
}

/// The rows (path, total) of the counters under the breakdowns `labels`,
/// below the path `parent`: each counter's own row, then the rows below it,
/// in order.
pub open spec fn label_rows(labels: Seq<(String, CounterBreakdown)>, parent: Seq<char>) -> Seq<
    (Seq<char>, u64),
>
    decreases labels,
{
    if labels.len() == 0 {
        Seq::empty()
    } else {
        label_rows(labels.drop_last(), parent) + entry_rows(labels.last().1@, parent)
    }
}

/// The rows of the counters of one breakdown and those below them.
pub open spec fn entry_rows(es: Seq<(String, Box<CounterValue>)>, parent: Seq<char>) -> Seq<
    (Seq<char>, u64),
>
    decreases es,
{
    if es.len() == 0 {
        Seq::empty()
    } else {
        let c = child_path(parent, es.last().0@);
        entry_rows(es.drop_last(), parent) + seq![(c, es.last().1.total)] + label_rows(
            es.last().1.labels@,
            c,
        )
    }
}

/// One cell of the CSV export: the value of a metric at a breakdown path.
#[derive(Debug, Clone)]
pub struct CsvCell {
    /// The breakdown path, "/" for the total.
    pub path: String,
    /// The metric name.
    pub metric: String,
    /// The value as text.
    pub value: String,
}

/// The texts of a cell.
pub open spec fn cell_text(c: CsvCell) -> (Seq<char>, Seq<char>, Seq<char>) {
    (c.path@, c.metric@, c.value@)
}

/// The cells of counter rows for a metric, totals written in decimal.
pub open spec fn counter_cells(rows: Seq<(Seq<char>, u64)>, metric: Seq<char>) -> Seq<
    (Seq<char>, Seq<char>, Seq<char>),
> {
    rows.map_values(|r: (Seq<char>, u64)| (r.0, metric, decimal(r.1 as nat)))
}

/// Collect the cells of every counter below `value`'s breakdowns, in order.
pub fn collect_counter_breakdowns(
    metric_name: &str,
    value: &CounterValue,
    parent_path: &str,
    rows: &mut Vec<CsvCell>,
)
    ensures
        final(rows)@.map_values(|c: CsvCell| cell_text(c)) == old(rows)@.map_values(
            |c: CsvCell| cell_text(c),
        ) + counter_cells(label_rows(value.labels@, parent_path@), metric_name@),
    decreases value, 0nat,
{
    let ghost start = rows@.map_values(|c: CsvCell| cell_text(c));
    let mut i: usize = 0;
    assert(value.labels@.take(0) =~= Seq::<(String, CounterBreakdown)>::empty());
    assert(counter_cells(Seq::empty(), metric_name@) =~= Seq::empty());
    assert(rows@.map_values(|c: CsvCell| cell_text(c)) =~= start + counter_cells(
        label_rows(value.labels@.take(0), parent_path@),
        metric_name@,
    ));
    while i < value.labels.len()
        invariant
            i <= value.labels@.len(),
            rows@.map_values(|c: CsvCell| cell_text(c)) == start + counter_cells(
                label_rows(value.labels@.take(i as int), parent_path@),
                metric_name@,
            ),
        decreases value.labels@.len() - i,
    {
        let entries = &value.labels[i].1;
        let ghost done = label_rows(value.labels@.take(i as int), parent_path@);
        let mut j: usize = 0;
        assert(entries@.take(0) =~= Seq::<(String, Box<CounterValue>)>::empty());
        assert(done + entry_rows(entries@.take(0), parent_path@) =~= done);
        while j < entries.len()
            invariant
                j <= entries@.len(),
                entries == value.labels@[i as int].1,
                i < value.labels@.len(),
                rows@.map_values(|c: CsvCell| cell_text(c)) == start + counter_cells(
                    done + entry_rows(entries@.take(j as int), parent_path@),
                    metric_name@,
                ),
            decreases entries@.len() - j,
        {
            let child: &CounterValue = &entries[j].1;
            let path = format_child_path(parent_path, entries[j].0.as_str());
            proof {
                let e = value.labels@[i as int];
                assert(decreases_to!(value => value.labels));
                assert(decreases_to!(value.labels => value.labels@));
                assert(decreases_to!(value.labels@ => e));
                assert(decreases_to!(e => e.1));
                assert(decreases_to!(e.1 => e.1@));
                assert(decreases_to!(e.1@ => e.1@[j as int]));
                assert(decreases_to!(e.1@[j as int] => e.1@[j as int].1));
            }
            collect_counter_breakdown_recursive(metric_name, child, path, rows);
            proof {
                let es = entries@.take(j + 1);
                assert(es.drop_last() =~= entries@.take(j as int));
                assert(es.last() == entries@[j as int]);
                let a = done + entry_rows(entries@.take(j as int), parent_path@);
                let b = seq![(child_path(parent_path@, entries@[j as int].0@), child.total)] + label_rows(
                    child.labels@,
                    child_path(parent_path@, entries@[j as int].0@),
                );
                assert(counter_cells(a + b, metric_name@) =~= counter_cells(a, metric_name@)
                    + counter_cells(b, metric_name@));
                assert(done + entry_rows(es, parent_path@) =~= a + b);
            }
            j = j + 1;
        }
        proof {
            let ls = value.labels@.take(i + 1);
            assert(ls.drop_last() =~= value.labels@.take(i as int));
            assert(ls.last() == value.labels@[i as int]);
            assert(entries@.take(entries@.len() as int) =~= entries@);
        }
        i = i + 1;
    }
    assert(value.labels@.take(value.labels@.len() as int) =~= value.labels@);
}

/// Record the cell of a counter at `path`, then the cells below it.
pub fn collect_counter_breakdown_recursive(
    metric_name: &str,
    value: &CounterValue,
    path: String,
    rows: &mut Vec<CsvCell>,
)
    ensures
        final(rows)@.map_values(|c: CsvCell| cell_text(c)) == old(rows)@.map_values(
            |c: CsvCell| cell_text(c),
        ) + counter_cells(seq![(path@, value.total)] + label_rows(value.labels@, path@), metric_name@),
    decreases value, 1nat,
{
    let ghost start = rows@.map_values(|c: CsvCell| cell_text(c));
    let mut text = String::new();
    push_decimal(&mut text, value.total);
    let cell = CsvCell { path: path.clone(), metric: metric_name.to_owned(), value: text };
    rows.push(cell);
    assert(rows@.map_values(|c: CsvCell| cell_text(c)) =~= start + counter_cells(
        seq![(path@, value.total)],
        metric_name@,
    ));
    collect_counter_breakdowns(metric_name, value, path.as_str(), rows);
    assert(counter_cells(seq![(path@, value.total)] + label_rows(value.labels@, path@), metric_name@)
        =~= counter_cells(seq![(path@, value.total)], metric_name@) + counter_cells(
        label_rows(value.labels@, path@),
        metric_name@,
    ));
}

/// A metric key as recorded: the metric name and its labels, in order.
#[derive(Debug, Clone)]
pub struct MetricKey {
    /// The metric name.
    pub name: String,
    /// The labels as key-value pairs.
    pub labels: Vec<(String, String)>,
}

/// Some spec's pattern matches the metric name.
pub open spec fn some_spec_matches(specs: Seq<MetricSpec>, name: Seq<char>) -> bool {
    exists|i: int| 0 <= i < specs.len() && glob((#[trigger] specs[i]).pattern@, name)
}

/// All labels are kept: no spec matches the name, or a matching spec breaks
/// down by all labels.
pub open spec fn keeps_all_labels(specs: Seq<MetricSpec>, name: Seq<char>) -> bool {
    ||| !some_spec_matches(specs, name)
    ||| exists|i: int| 0 <= i < specs.len() && glob((#[trigger] specs[i]).pattern@, name) && specs[i].breakdown_all
}

/// Some spec among the first `n` matches the name and has a breakdown whose
/// label key is `k`.
pub open spec fn allowed_by(specs: Seq<MetricSpec>, name: Seq<char>, n: int, k: Seq<char>) -> bool {
    exists|a: int, b: int|
        #![trigger specs[a].breakdowns@[b]]
        0 <= a < n && glob(specs[a].pattern@, name) && 0 <= b < specs[a].breakdowns@.len() && label_key_of(
            specs[a].breakdowns@[b],
        ) == k
}

/// Some label of the list has the key `k`.
pub open spec fn names_key(ls: Seq<BreakdownLabel>, k: Seq<char>) -> bool {
    exists|j: int| 0 <= j < ls.len() && label_key_of(#[trigger] ls[j]) == k
}

/// A label key is kept for the name: all labels are kept, or it is the key
/// of a breakdown of a matching spec.
pub open spec fn label_allowed(specs: Seq<MetricSpec>, name: Seq<char>, k: Seq<char>) -> bool {
    keeps_all_labels(specs, name) || allowed_by(specs, name, specs.len() as int, k)
}

/// The labels whose keys are kept, in order.
pub open spec fn kept_labels(specs: Seq<MetricSpec>, name: Seq<char>, labels: Seq<(String, String)>) -> Seq<
    (String, String),
>
    decreases labels.len(),
{
    if labels.len() == 0 {
        Seq::empty()
    } else {
        let rest = kept_labels(specs, name, labels.drop_last());
        if label_allowed(specs, name, labels.last().0@) {
            rest.push(labels.last())
        } else {
            rest
        }
    }
}

/// `key=value`.
pub open spec fn pair_text(p: (String, String)) -> Seq<char> {
    p.0@ + seq!['='] + p.1@
}

/// The pairs `key=value` separated by commas.
pub open spec fn pairs_text(labels: Seq<(String, String)>) -> Seq<char>
    decreases labels.len(),
{
    if labels.len() == 0 {
        Seq::empty()
    } else if labels.len() == 1 {
        pair_text(labels[0])
    } else {
        pairs_text(labels.drop_last()) + seq![','] + pair_text(labels.last())
    }
}

/// The unique text of a key: the name alone without labels, otherwise the
/// name, a bar, and the labels.
pub open spec fn key_text(name: Seq<char>, labels: Seq<(String, String)>) -> Seq<char> {
    if labels.len() == 0 {
        name
    } else {
        name + seq!['|'] + pairs_text(labels)
    }
}

fn push_str(out: &mut String, s: &str)
    ensures
        final(out)@ == old(out)@ + s@,
{
    let chars = str_chars(s);
    let mut i: usize = 0;
    while i < chars.len()
        invariant
            i <= chars@.len(),
            chars@ == s@,
            out@ == old(out)@ + s@.take(i as int),
        decreases chars@.len() - i,
    {
        string_push(out, chars[i]);
        assert(s@.take(i + 1) =~= s@.take(i as int).push(chars@[i as int]));
        assert(out@ =~= old(out)@ + s@.take(i + 1));
        i = i + 1;
    }
    assert(s@.take(s@.len() as int) =~= s@);
}

fn key_text_of(name: &str, labels: &Vec<(String, String)>) -> (r: String)
    ensures
        r@ == key_text(name@, labels@),
{
    let mut out = name.to_owned();
    if labels.len() == 0 {
        return out;
    }
    string_push(&mut out, '|');
    let mut i: usize = 0;
    while i < labels.len()
        invariant
            i <= labels@.len(),
            labels@.len() > 0,
            out@ == name@ + seq!['|'] + pairs_text(labels@.take(i as int)),
        decreases labels@.len() - i,
    {
        let ghost before = out@;
        if i > 0 {
            string_push(&mut out, ',');
        }
        push_str(&mut out, labels[i].0.as_str());
        string_push(&mut out, '=');
        push_str(&mut out, labels[i].1.as_str());
        proof {
            let t = labels@.take(i + 1);
            assert(t.drop_last() =~= labels@.take(i as int));
            assert(t.last() == labels@[i as int]);
            if i == 0 {
                assert(t.len() == 1 && t[0] == labels@[0]);
                assert(labels@.take(0) =~= Seq::<(String, String)>::empty());
            }
            assert(out@ =~= name@ + seq!['|'] + pairs_text(t));
        }
        i = i + 1;
    }
    assert(labels@.take(labels@.len() as int) =~= labels@);
    out
}

/// Build a unique key string from a metric key (including labels).
pub fn key_to_string(key: &MetricKey) -> (r: String)
    ensures
        r@ == key_text(key.name@, key.labels@),
{
    key_text_of(key.name.as_str(), &key.labels)
}

/// The label filter of the specs for a metric name: whether all labels are
/// kept, and otherwise the breakdown labels of the matching specs.
fn label_filter(specs: &[MetricSpec], name: &str) -> (r: (bool, Vec<BreakdownLabel>))
    ensures
        r.0 == keeps_all_labels(specs@, name@),
        forall|k: Seq<char>|
            #![trigger allowed_by(specs@, name@, specs@.len() as int, k)]
            #![trigger names_key(r.1@, k)]
            allowed_by(specs@, name@, specs@.len() as int, k) == names_key(r.1@, k),
{
    let mut any_match = false;
    let mut all = false;
    let mut allowed: Vec<BreakdownLabel> = Vec::new();
    let mut i: usize = 0;
    while i < specs.len()
        invariant
            i <= specs@.len(),
            any_match == exists|a: int| 0 <= a < i && glob((#[trigger] specs@[a]).pattern@, name@),
            all == exists|a: int|
                0 <= a < i && glob((#[trigger] specs@[a]).pattern@, name@) && specs@[a].breakdown_all,
            forall|k: Seq<char>|
                #![trigger allowed_by(specs@, name@, i as int, k)]
                #![trigger names_key(allowed@, k)]
                allowed_by(specs@, name@, i as int, k) == names_key(allowed@, k),
        decreases specs@.len() - i,
    {
        let spec = &specs[i];
        let ghost before = allowed@;
        if spec.matches(name) {
            any_match = true;
            if spec.breakdown_all {
                all = true;
            }
            let mut b: usize = 0;
            while b < spec.breakdowns.len()
                invariant
                    b <= spec.breakdowns@.len(),
                    allowed@ == before + spec.breakdowns@.take(b as int),
                decreases spec.breakdowns@.len() - b,
            {
                allowed.push(spec.breakdowns[b]);
                assert(spec.breakdowns@.take(b + 1) =~= spec.breakdowns@.take(b as int).push(
                    spec.breakdowns@[b as int],
                ));
                assert(allowed@ =~= before + spec.breakdowns@.take(b + 1));
                b = b + 1;
            }
            assert(spec.breakdowns@.take(spec.breakdowns@.len() as int) =~= spec.breakdowns@);
        }
        proof {
            assert forall|k: Seq<char>| allowed_by(specs@, name@, i + 1, k) == names_key(allowed@, k) by {
                if names_key(allowed@, k) {
                    let j = choose|j: int| 0 <= j < allowed@.len() && label_key_of(#[trigger] allowed@[j]) == k;
                    if j >= before.len() {
                        let c = j - before.len();
                        assert(specs@[i as int].breakdowns@[c] == allowed@[j]);
                    } else {
                        assert(before[j] == allowed@[j]);
                        assert(names_key(before, k));
                        assert(allowed_by(specs@, name@, i as int, k));
                    }
                }
                if allowed_by(specs@, name@, i + 1, k) {
                    let (a, c) = choose|a: int, c: int|
                        #![trigger specs@[a].breakdowns@[c]]
                        0 <= a < i + 1 && glob(specs@[a].pattern@, name@) && 0 <= c
                            < specs@[a].breakdowns@.len() && label_key_of(specs@[a].breakdowns@[c]) == k;
                    if a == i {
                        assert(allowed@[before.len() + c] == specs@[a].breakdowns@[c]);
                    } else {
                        assert(allowed_by(specs@, name@, i as int, k));
                        assert(names_key(before, k));
                        let j = choose|j: int| 0 <= j < before.len() && label_key_of(#[trigger] before[j]) == k;
                        assert(allowed@[j] == before[j]);
                    }
                }
            }
        }
        i = i + 1;
    }
    (!any_match || all, allowed)
}

/// The labels of a key that the specs keep, in order.
fn filter_labels(specs: &[MetricSpec], key: &MetricKey) -> (r: Vec<(String, String)>)
    ensures
        r@ == kept_labels(specs@, key.name@, key.labels@),
{
    let (all, allowed) = label_filter(specs, key.name.as_str());
    let mut out: Vec<(String, String)> = Vec::new();
    let mut i: usize = 0;
    assert(key.labels@.take(0) =~= Seq::<(String, String)>::empty());
    while i < key.labels.len()
        invariant
            i <= key.labels@.len(),
            all == keeps_all_labels(specs@, key.name@),
            forall|k: Seq<char>|
                #![trigger allowed_by(specs@, key.name@, specs@.len() as int, k)]
                #![trigger names_key(allowed@, k)]
                allowed_by(specs@, key.name@, specs@.len() as int, k) == names_key(allowed@, k),
            out@ == kept_labels(specs@, key.name@, key.labels@.take(i as int)),
        decreases key.labels@.len() - i,
    {
        let k = &key.labels[i].0;
        let mut keep = all;
        if !all {
            let mut j: usize = 0;
            while j < allowed.len()
                invariant
                    j <= allowed@.len(),
                    keep == exists|a: int| 0 <= a < j && label_key_of(#[trigger] allowed@[a]) == k@,
                decreases allowed@.len() - j,
            {
                if allowed[j].label_key().to_owned() == *k {
                    keep = true;
                }
                j = j + 1;
            }
        }
        assert(keep == label_allowed(specs@, key.name@, k@)) by {
            if !all {
                assert(names_key(allowed@, k@) == keep);
            }
        }
        let ghost t = key.labels@.take(i + 1);
        assert(t.drop_last() =~= key.labels@.take(i as int));
        assert(t.last() == key.labels@[i as int]);
        if keep {
            out.push((key.labels[i].0.clone(), key.labels[i].1.clone()));
        }
        i = i + 1;
    }
    assert(key.labels@.take(key.labels@.len() as int) =~= key.labels@);
    out
}

/// Build a key string with labels filtered by the metric specs: only the
/// labels named by a breakdown of a spec matching the metric; all labels
/// when no spec matches or a matching spec breaks down by all labels.
pub fn key_to_string_filtered(key: &MetricKey, specs: &[MetricSpec]) -> (r: String)
    ensures
        r@ == key_text(key.name@, kept_labels(specs@, key.name@, key.labels@)),
{
    let labels = filter_labels(specs, key);
    key_text_of(key.name.as_str(), &labels)
}

/// Extract metadata from a metric key.
pub fn key_metadata(key: &MetricKey) -> (m: KeyMetadata)
    ensures
        m.name@ == key.name@,
        m.labels@.len() == key.labels@.len(),
        forall|i: int|
            0 <= i < key.labels@.len() ==> (#[trigger] m.labels@[i]).0@ == key.labels@[i].0@ && m.labels@[i].1@
                == key.labels@[i].1@,
{
    let mut labels: Vec<(String, String)> = Vec::new();
    let mut i: usize = 0;
    while i < key.labels.len()
        invariant
            i <= key.labels@.len(),
            labels@.len() == i,
            forall|j: int|
                0 <= j < i ==> (#[trigger] labels@[j]).0@ == key.labels@[j].0@ && labels@[j].1@
                    == key.labels@[j].1@,
        decreases key.labels@.len() - i,
    {
        labels.push((key.labels[i].0.clone(), key.labels[i].1.clone()));
        i = i + 1;
    }
    KeyMetadata { name: key.name.clone(), labels }
}

/// Build metadata from a metric key with its labels filtered by the metric
/// specs, as for `key_to_string_filtered`.
pub fn key_metadata_filtered(key: &MetricKey, specs: &[MetricSpec]) -> (m: KeyMetadata)
    ensures
        m.name@ == key.name@,
        m.labels@ == kept_labels(specs@, key.name@, key.labels@),
{
    let labels = filter_labels(specs, key);
    KeyMetadata { name: key.name.clone(), labels }
}

/// The breakdowns a spec asks for over the data: every label some metric
/// has, in sort order, when it breaks down by all labels; otherwise its own.
pub open spec fn spec_breakdowns(spec: MetricSpec, data: Seq<(KeyMetadata, u64)>) -> Seq<BreakdownLabel> {
    if spec.breakdown_all {
        collected_labels(data)
    } else {
        spec.breakdowns@
    }
}

/// `v` is the outcome of applying the breakdown lists `bdss` in turn to a
/// counter with total `t0` and breakdowns `b0`.
pub open spec fn applied_in_turn(
    t0: u64,
    b0: Map<Seq<char>, CounterBreakdown>,
    v: CounterValue,
    data: Seq<(KeyMetadata, u64)>,
    idx: Seq<usize>,
    bdss: Seq<Seq<BreakdownLabel>>,
) -> bool
    decreases bdss.len(),
{
    if bdss.len() == 0 {
        v.total == t0 && v.breakdowns() == b0
    } else {
        exists|mid: CounterValue|
            applied_in_turn(t0, b0, mid, data, idx, bdss.drop_last()) && #[trigger] applied(
                mid.total,
                mid.breakdowns(),
                v,
                data,
                idx,
                bdss.last(),
                0,
            )
    }
}

/// The counter export of one metric from the values recorded under its
/// keys: the sum of all values, with the breakdowns of each matching spec
/// merged in turn.
pub fn counter_value_with_specs(data: &[(KeyMetadata, u64)], specs: &[MetricSpec]) -> (v: CounterValue)
    requires
        value_sum(data@, all_positions(data@.len())) <= u64::MAX,
        forall|i: int|
            0 <= i < specs@.len() ==> sums_fit(
                data@,
                all_positions(data@.len()),
                spec_breakdowns(#[trigger] specs@[i], data@),
                0,
            ),
    ensures
        deep_wf(v),
        applied_in_turn(
            value_sum(data@, all_positions(data@.len())) as u64,
            Map::empty(),
            v,
            data@,
            all_positions(data@.len()),
            specs@.map_values(|s: MetricSpec| spec_breakdowns(s, data@)),
        ),
{
    let mut idx: Vec<usize> = Vec::new();
    let mut i: usize = 0;
    while i < data.len()
        invariant
            i <= data@.len(),
            idx@ == all_positions(i as nat),
        decreases data@.len() - i,
    {
        idx.push(i);
        assert(idx@ =~= all_positions(i as nat + 1));
        i = i + 1;
    }
    let ghost all = idx@;
    let ghost bdss = specs@.map_values(|s: MetricSpec| spec_breakdowns(s, data@));
    let total = sum_at(data, &idx);
    let mut value = CounterValue::new(total);
    let mut k: usize = 0;
    assert(bdss.take(0) =~= Seq::<Seq<BreakdownLabel>>::empty());
    while k < specs.len()
        invariant
            k <= specs@.len(),
            idx@ == all,
            all == all_positions(data@.len()),
            valid_positions(data@, all),
            bdss == specs@.map_values(|s: MetricSpec| spec_breakdowns(s, data@)),
            forall|i: int|
                0 <= i < specs@.len() ==> sums_fit(data@, all, spec_breakdowns(#[trigger] specs@[i], data@), 0),
            deep_wf(value),
            applied_in_turn(total, Map::empty(), value, data@, all, bdss.take(k as int)),
        decreases specs@.len() - k,
    {
        let ghost mid = value;
        let spec = &specs[k];
        assert(sums_fit(data@, all, spec_breakdowns(specs@[k as int], data@), 0));
        if spec.breakdown_all {
            let b = collect_available_labels_counter(data);
            apply_at(&mut value, data, &idx, b.as_slice(), 0);
        } else {
            apply_at(&mut value, data, &idx, spec.breakdowns.as_slice(), 0);
        }
        proof {
            let t = bdss.take(k + 1);
            assert(t.drop_last() =~= bdss.take(k as int));
            assert(t.last() == spec_breakdowns(specs@[k as int], data@));
            assert(applied(mid.total, mid.breakdowns(), value, data@, all, t.last(), 0));
        }
        k = k + 1;
    }
    assert(bdss.take(specs@.len() as int) =~= bdss);
    value
}

/// `a + b` wrapped around at 2^64.
pub open spec fn wrapped_sum(a: u64, b: u64) -> u64 {
    if a + b > u64::MAX {
        (a + b - 0x1_0000_0000_0000_0000) as u64
    } else {
        (a + b) as u64
    }
}

/// Storage for a single counter value.
#[derive(Debug)]
pub struct CounterState {
    /// The current count.
    pub value: u64,
}

impl Default for CounterState {
    fn default() -> (c: Self)
        ensures
            c.value == 0,
    {
        CounterState { value: 0 }
    }
}

impl CounterState {
    /// Add to the counter, wrapping around on overflow as an atomic add does.
    pub fn increment(&mut self, value: u64)
        ensures
            final(self).value == wrapped_sum(old(self).value, value),
    {
        self.value = self.value.wrapping_add(value);
    }

    /// The current count.
    pub fn get(&self) -> (v: u64)
        ensures
            v == self.value,
    {
        self.value
    }
}

/// The value recorded under a key of a map, zero when absent.
pub open spec fn value_or_zero(m: Map<Seq<char>, u64>, k: Seq<char>) -> nat {
    if m.dom().contains(k) {
        m[k] as nat
    } else {
        0
    }
}

/// The node label of a metric, if any.
pub open spec fn node_of(m: KeyMetadata) -> Option<Seq<char>> {
    label_lookup(m.labels@, "node"@)
}

/// The sum of the values of the metrics named `name`.
pub open spec fn name_sum(data: Seq<(KeyMetadata, u64)>, name: Seq<char>) -> nat
    decreases data.len(),
{
    if data.len() == 0 {
        0
    } else {
        name_sum(data.drop_last(), name) + if data.last().0.name@ == name {
            data.last().1 as nat
        } else {
            0nat
        }
    }
}

/// The sum of the values of the metrics named `name` on node `node`.
pub open spec fn node_name_sum(data: Seq<(KeyMetadata, u64)>, node: Seq<char>, name: Seq<char>) -> nat
    decreases data.len(),
{
    if data.len() == 0 {
        0
    } else {
        node_name_sum(data.drop_last(), node, name) + if node_of(data.last().0) == Some(node)
            && data.last().0.name@ == name {
            data.last().1 as nat
        } else {
            0nat
        }
    }
}

/// The metric names of the data.
pub open spec fn names_of(data: Seq<(KeyMetadata, u64)>) -> Set<Seq<char>> {
    Set::new(|n: Seq<char>| exists|i: int| 0 <= i < data.len() && (#[trigger] data[i]).0.name@ == n)
}

/// The nodes of the data.
pub open spec fn nodes_of(data: Seq<(KeyMetadata, u64)>) -> Set<Seq<char>> {
    Set::new(|n: Seq<char>| exists|i: int| 0 <= i < data.len() && node_of((#[trigger] data[i]).0) == Some(n))
}

/// The metric names recorded on a node.
pub open spec fn node_names_of(data: Seq<(KeyMetadata, u64)>, node: Seq<char>) -> Set<Seq<char>> {
    Set::new(
        |n: Seq<char>|
            exists|i: int|
                0 <= i < data.len() && node_of((#[trigger] data[i]).0) == Some(node) && data[i].0.name@ == n,
    )
}

/// Add `v` to the value under `key`, inserting it if absent.
fn add_to(list: &mut Vec<(String, u64)>, key: &String, v: u64)
    requires
        distinct_keys(old(list)@),
        value_or_zero(assoc_map(old(list)@), key@) + v <= u64::MAX,
    ensures
        distinct_keys(final(list)@),
        assoc_map(final(list)@) == assoc_map(old(list)@).insert(
            key@,
            (value_or_zero(assoc_map(old(list)@), key@) + v) as u64,
        ),
{
    let ghost before = list@;
    match find_key(list, key) {
        Some(pos) => {
            proof {
                lemma_assoc_index(before, pos as int);
            }
            let (k, old_v) = list.remove(pos);
            list.insert(pos, (k, old_v + v));
            proof {
                assert(list@ =~= before.update(pos as int, list@[pos as int]));
                lemma_assoc_update(before, pos as int, list@[pos as int]);
            }
        },
        None => {
            let entry = (key.clone(), v);
            proof {
                lemma_assoc_push(before, entry);
                lemma_distinct_push(before, entry);
            }
            list.push(entry);
        },
    }
}

proof fn lemma_sums_take(data: Seq<(KeyMetadata, u64)>, i: int, name: Seq<char>, node: Seq<char>)
    requires
        0 <= i < data.len(),
    ensures
        name_sum(data.take(i + 1), name) == name_sum(data.take(i), name) + if data[i].0.name@ == name {
            data[i].1 as nat
        } else {
            0nat
        },
        node_name_sum(data.take(i + 1), node, name) == node_name_sum(data.take(i), node, name) + if node_of(
            data[i].0,
        ) == Some(node) && data[i].0.name@ == name {
            data[i].1 as nat
        } else {
            0nat
        },
        name_sum(data.take(i + 1), name) <= name_sum(data, name),
        node_name_sum(data.take(i + 1), node, name) <= name_sum(data.take(i + 1), name),
    decreases data.len() - i,
{
    assert(data.take(i + 1).drop_last() =~= data.take(i));
    assert(data.take(i + 1).last() == data[i]);
    lemma_node_sum_le(data.take(i + 1), node, name);
    if i + 1 < data.len() {
        lemma_sums_take(data, i + 1, name, node);
    } else {
        assert(data.take(i + 1) =~= data);
    }
}

proof fn lemma_node_sum_le(data: Seq<(KeyMetadata, u64)>, node: Seq<char>, name: Seq<char>)
    ensures
        node_name_sum(data, node, name) <= name_sum(data, name),
    decreases data.len(),
{
    if data.len() > 0 {
        lemma_node_sum_le(data.drop_last(), node, name);
    }
}

/// The counter totals of a snapshot: the sum of the values of each metric
/// name, and for each node the sum of each metric name's values recorded on
/// that node.
pub fn snapshot_counters(data: &[(KeyMetadata, u64)]) -> (r: (Vec<(String, u64)>, Vec<(String, Vec<(String, u64)>)>))
    requires
        forall|name: Seq<char>| #[trigger] name_sum(data@, name) <= u64::MAX,
    ensures
        distinct_keys(r.0@),
        forall|name: Seq<char>| assoc_map(r.0@).dom().contains(name) <==> names_of(data@).contains(name),
        forall|name: Seq<char>| #[trigger] value_or_zero(assoc_map(r.0@), name) == name_sum(data@, name),
        distinct_keys(r.1@),
        forall|node: Seq<char>| assoc_map(r.1@).dom().contains(node) <==> nodes_of(data@).contains(node),
        forall|node: Seq<char>|
            #[trigger] assoc_map(r.1@).dom().contains(node) ==> {
                let inner = assoc_map(assoc_map(r.1@)[node]@);
                &&& distinct_keys(assoc_map(r.1@)[node]@)
                &&& forall|name: Seq<char>| inner.dom().contains(name) <==> node_names_of(data@, node).contains(name)
                &&& forall|name: Seq<char>| #[trigger] value_or_zero(inner, name) == node_name_sum(data@, node, name)
            },
{
    let mut totals: Vec<(String, u64)> = Vec::new();
    let mut nodes: Vec<(String, Vec<(String, u64)>)> = Vec::new();
    let mut i: usize = 0;
    assert(data@.take(0) =~= Seq::<(KeyMetadata, u64)>::empty());
    while i < data.len()
        invariant
            i <= data@.len(),
            forall|name: Seq<char>| #[trigger] name_sum(data@, name) <= u64::MAX,
            distinct_keys(totals@),
            forall|name: Seq<char>|
                assoc_map(totals@).dom().contains(name) <==> names_of(data@.take(i as int)).contains(name),
            forall|name: Seq<char>|
                #[trigger] value_or_zero(assoc_map(totals@), name) == name_sum(data@.take(i as int), name),
            distinct_keys(nodes@),
            forall|node: Seq<char>|
                assoc_map(nodes@).dom().contains(node) <==> nodes_of(data@.take(i as int)).contains(node),
            forall|node: Seq<char>|
                #[trigger] assoc_map(nodes@).dom().contains(node) ==> {
                    let inner = assoc_map(assoc_map(nodes@)[node]@);
                    &&& distinct_keys(assoc_map(nodes@)[node]@)
                    &&& forall|name: Seq<char>|
                        inner.dom().contains(name) <==> node_names_of(data@.take(i as int), node).contains(name)
                    &&& forall|name: Seq<char>|
                        #[trigger] value_or_zero(inner, name) == node_name_sum(data@.take(i as int), node, name)
                },
        decreases data@.len() - i,
    {
        let v = data[i].1;
        let name = data[i].0.name.clone();
        let ghost item = data@[i as int];
        let ghost pre = data@.take(i as int);
        let ghost nxt = data@.take(i + 1);
        proof {
            assert(nxt.drop_last() =~= pre);
            assert(nxt.last() == item);
            assert forall|k: Seq<char>, nd: Seq<char>| #![trigger name_sum(nxt, k), node_name_sum(nxt, nd, k)]
                name_sum(nxt, k) == name_sum(pre, k) + (if item.0.name@ == k {
                    item.1 as nat
                } else {
                    0nat
                }) && node_name_sum(nxt, nd, k) == node_name_sum(pre, nd, k) + (if node_of(item.0) == Some(nd)
                    && item.0.name@ == k {
                    item.1 as nat
                } else {
                    0nat
                }) && name_sum(nxt, k) <= name_sum(data@, k) && node_name_sum(nxt, nd, k) <= name_sum(nxt, k) by {
                lemma_sums_take(data@, i as int, k, nd);
            }
            lemma_sums_take(data@, i as int, name@, name@);
            assert(name_sum(nxt, name@) <= u64::MAX);
        }
        let ghost totals_before = assoc_map(totals@);
        add_to(&mut totals, &name, v);
        proof {
            assert forall|k: Seq<char>| assoc_map(totals@).dom().contains(k) <==> names_of(nxt).contains(k) by {
                if names_of(nxt).contains(k) {
                    let j = choose|j: int| 0 <= j < nxt.len() && (#[trigger] nxt[j]).0.name@ == k;
                    if j < i {
                        assert(pre[j] == nxt[j]);
                        assert(names_of(pre).contains(k));
                    }
                }
                if names_of(pre).contains(k) {
                    let j = choose|j: int| 0 <= j < pre.len() && (#[trigger] pre[j]).0.name@ == k;
                    assert(nxt[j] == pre[j]);
                }
                if k == name@ {
                    assert(nxt[i as int] == item);
                }
            }
            assert forall|k: Seq<char>| #[trigger] value_or_zero(assoc_map(totals@), k) == name_sum(nxt, k) by {
                lemma_sums_take(data@, i as int, k, k);
                assert(value_or_zero(totals_before, k) == name_sum(pre, k));
                assert(nxt[i as int] == item);
            }
        }
        match data[i].0.node() {
            Some(node_str) => {
                let node = node_str.to_owned();
                let ghost nodes_before = nodes@;
                let mut inner: Vec<(String, u64)> = match find_key(&nodes, &node) {
                    Some(pos) => {
                        proof {
                            lemma_assoc_index(nodes_before, pos as int);
                        }
                        let (_k, list) = nodes.remove(pos);
                        proof {
                            lemma_assoc_remove(nodes_before, pos as int);
                        }
                        list
                    },
                    None => Vec::new(),
                };
                let ghost inner_before = assoc_map(inner@);
                proof {
                    if assoc_map(nodes_before).dom().contains(node@) {
                        assert(inner@ == assoc_map(nodes_before)[node@]@);
                        assert(assoc_map(nodes@) == assoc_map(nodes_before).remove(node@));
                    } else {
                        assert(inner@.len() == 0);
                        assert(nodes@ == nodes_before);
                    }
                }
                proof {
                    assert(value_or_zero(inner_before, name@) == node_name_sum(pre, node@, name@)) by {
                        if !assoc_map(nodes_before).dom().contains(node@) {
                            assert(inner@.len() == 0);
                            assert(!node_names_of(pre, node@).contains(name@)) by {
                                if node_names_of(pre, node@).contains(name@) {
                                    let j = choose|j: int|
                                        0 <= j < pre.len() && node_of((#[trigger] pre[j]).0) == Some(node@) && pre[j].0.name@ == name@;
                                    assert(nodes_of(pre).contains(node@));
                                }
                            }
                            lemma_node_sum_zero(pre, node@, name@);
                        }
                    }
                    lemma_sums_take(data@, i as int, name@, node@);
                }
                add_to(&mut inner, &name, v);
                let ghost mid = nodes@;
                let entry = (node, inner);
                proof {
                    lemma_assoc_push(mid, entry);
                    lemma_distinct_push(mid, entry);
                }
                nodes.push(entry);
                proof {
                    let nm = assoc_map(nodes@);
                    assert forall|nd: Seq<char>| nm.dom().contains(nd) <==> nodes_of(nxt).contains(nd) by {
                        if nodes_of(nxt).contains(nd) {
                            let j = choose|j: int| 0 <= j < nxt.len() && node_of((#[trigger] nxt[j]).0) == Some(nd);
                            if j < i {
                                assert(pre[j] == nxt[j]);
                                assert(nodes_of(pre).contains(nd));
                            }
                        }
                        if nodes_of(pre).contains(nd) {
                            let j = choose|j: int| 0 <= j < pre.len() && node_of((#[trigger] pre[j]).0) == Some(nd);
                            assert(nxt[j] == pre[j]);
                        }
                        if nd == node@ {
                            assert(nxt[i as int] == item);
                        }
                    }
                    assert forall|nd: Seq<char>| #[trigger] nm.dom().contains(nd) implies {
                        let inn = assoc_map(nm[nd]@);
                        &&& distinct_keys(nm[nd]@)
                        &&& forall|k: Seq<char>| inn.dom().contains(k) <==> node_names_of(nxt, nd).contains(k)
                        &&& forall|k: Seq<char>| #[trigger] value_or_zero(inn, k) == node_name_sum(nxt, nd, k)
                    } by {
                        let inn = assoc_map(nm[nd]@);
                        assert forall|k: Seq<char>| inn.dom().contains(k) <==> node_names_of(nxt, nd).contains(k) by {
                            if node_names_of(nxt, nd).contains(k) {
                                let j = choose|j: int|
                                    0 <= j < nxt.len() && node_of((#[trigger] nxt[j]).0) == Some(nd) && nxt[j].0.name@ == k;
                                if j < i {
                                    assert(pre[j] == nxt[j]);
                                    assert(node_names_of(pre, nd).contains(k));
                                    assert(nodes_of(pre).contains(nd));
                                }
                            }
                            if node_names_of(pre, nd).contains(k) {
                                let j = choose|j: int|
                                    0 <= j < pre.len() && node_of((#[trigger] pre[j]).0) == Some(nd) && pre[j].0.name@ == k;
                                assert(nxt[j] == pre[j]);
                                assert(nodes_of(pre).contains(nd));
                            }
                            if nd == node@ && k == name@ {
                                assert(nxt[i as int] == item);
                            }
                        }
                        assert forall|k: Seq<char>| #[trigger] value_or_zero(inn, k) == node_name_sum(nxt, nd, k) by {
                            lemma_sums_take(data@, i as int, k, nd);
                            assert(nxt[i as int] == item);
                            if nd != node@ {
                                assert(assoc_map(nodes_before).dom().contains(nd));
                                assert(nm[nd] == assoc_map(nodes_before)[nd]);
                                assert(value_or_zero(assoc_map(assoc_map(nodes_before)[nd]@), k) == node_name_sum(pre, nd, k));
                            } else if assoc_map(nodes_before).dom().contains(nd) {
                                assert(value_or_zero(inner_before, k) == node_name_sum(pre, nd, k));
                            }
                            if nd != node@ && !assoc_map(nodes_before).dom().contains(nd) {
                                assert(!nodes_of(pre).contains(nd));
                                assert(!node_names_of(pre, nd).contains(k)) by {
                                    if node_names_of(pre, nd).contains(k) {
                                        let j = choose|j: int|
                                            0 <= j < pre.len() && node_of((#[trigger] pre[j]).0) == Some(nd) && pre[j].0.name@ == k;
                                        assert(nodes_of(pre).contains(nd));
                                    }
                                }
                                lemma_node_sum_zero(pre, nd, k);
                            }
                            if nd == node@ && k != name@ && !assoc_map(nodes_before).dom().contains(nd) {
                                assert(!node_names_of(pre, nd).contains(k)) by {
                                    if node_names_of(pre, nd).contains(k) {
                                        let j = choose|j: int|
                                            0 <= j < pre.len() && node_of((#[trigger] pre[j]).0) == Some(nd) && pre[j].0.name@ == k;
                                        assert(nodes_of(pre).contains(nd));
                                    }
                                }
                                lemma_node_sum_zero(pre, nd, k);
                            }
                        }
                    }
                }
            },
            None => {
                proof {
                    let nm = assoc_map(nodes@);
                    assert forall|nd: Seq<char>| nm.dom().contains(nd) <==> nodes_of(nxt).contains(nd) by {
                        if nodes_of(nxt).contains(nd) {
                            let j = choose|j: int| 0 <= j < nxt.len() && node_of((#[trigger] nxt[j]).0) == Some(nd);
                            if j < i {
                                assert(pre[j] == nxt[j]);
                            } else {
                                assert(nxt[j] == item);
                            }
                        }
                        if nodes_of(pre).contains(nd) {
                            let j = choose|j: int| 0 <= j < pre.len() && node_of((#[trigger] pre[j]).0) == Some(nd);
                            assert(nxt[j] == pre[j]);
                        }
                    }
                    assert forall|nd: Seq<char>| #[trigger] nm.dom().contains(nd) implies {
                        let inn = assoc_map(nm[nd]@);
                        &&& distinct_keys(nm[nd]@)
                        &&& forall|k: Seq<char>| inn.dom().contains(k) <==> node_names_of(nxt, nd).contains(k)
                        &&& forall|k: Seq<char>| #[trigger] value_or_zero(inn, k) == node_name_sum(nxt, nd, k)
                    } by {
                        let inn = assoc_map(nm[nd]@);
                        assert forall|k: Seq<char>| inn.dom().contains(k) <==> node_names_of(nxt, nd).contains(k) by {
                            if node_names_of(nxt, nd).contains(k) {
                                let j = choose|j: int|
                                    0 <= j < nxt.len() && node_of((#[trigger] nxt[j]).0) == Some(nd) && nxt[j].0.name@ == k;
                                if j < i {
                                    assert(pre[j] == nxt[j]);
                                } else {
                                    assert(nxt[j] == item);
                                }
                            }
                            if node_names_of(pre, nd).contains(k) {
                                let j = choose|j: int|
                                    0 <= j < pre.len() && node_of((#[trigger] pre[j]).0) == Some(nd) && pre[j].0.name@ == k;
                                assert(nxt[j] == pre[j]);
                            }
                        }
                        assert forall|k: Seq<char>| #[trigger] value_or_zero(inn, k) == node_name_sum(nxt, nd, k) by {
                            lemma_sums_take(data@, i as int, k, nd);
                        }
                    }
                }
            },
        }
        i = i + 1;
    }
    assert(data@.take(data@.len() as int) =~= data@);
    (totals, nodes)
}

proof fn lemma_node_sum_zero(data: Seq<(KeyMetadata, u64)>, node: Seq<char>, name: Seq<char>)
    requires
        !node_names_of(data, node).contains(name),
    ensures
        node_name_sum(data, node, name) == 0,
    decreases data.len(),
{
    if data.len() > 0 {
        let d = data.drop_last();
        assert(!node_names_of(d, node).contains(name)) by {
            if node_names_of(d, node).contains(name) {
                let j = choose|j: int| 0 <= j < d.len() && node_of((#[trigger] d[j]).0) == Some(node) && d[j].0.name@ == name;
                assert(data[j] == d[j]);
            }
        }
        lemma_node_sum_zero(d, node, name);
        assert(data[data.len() - 1] == data.last());
    }
}

/// Two counters agree to `n` levels of breakdown: equal totals, the same
/// breakdown labels with the same label values, and agreeing counters one
/// level down; at the last level their breakdowns are equal.
pub open spec fn tree_equiv(a: CounterValue, b: CounterValue, n: nat) -> bool
    decreases n,
{
    &&& a.total == b.total
    &&& if n == 0 {
        a.breakdowns() == b.breakdowns()
    } else {
        &&& a.breakdowns().dom() == b.breakdowns().dom()
        &&& forall|k1: Seq<char>|
            #![trigger a.breakdowns()[k1]]
            a.breakdowns().dom().contains(k1) ==> {
                let ma = assoc_map(a.breakdowns()[k1]@);
                let mb = assoc_map(b.breakdowns()[k1]@);
                &&& ma.dom() == mb.dom()
                &&& forall|k2: Seq<char>|
                    #![trigger ma[k2]]
                    ma.dom().contains(k2) ==> tree_equiv(*ma[k2], *mb[k2], (n - 1) as nat)
            }
    }
}

/// Counters with equal totals and equal breakdowns agree at every depth.
pub proof fn lemma_tree_equiv_same(a: CounterValue, b: CounterValue, n: nat)
    requires
        a.total == b.total,
        a.breakdowns() == b.breakdowns(),
    ensures
        tree_equiv(a, b, n),
    decreases n,
{
    if n > 0 {
        assert forall|k1: Seq<char>| #![trigger a.breakdowns()[k1]] a.breakdowns().dom().contains(k1) implies {
            let ma = assoc_map(a.breakdowns()[k1]@);
            let mb = assoc_map(b.breakdowns()[k1]@);
            &&& ma.dom() == mb.dom()
            &&& forall|k2: Seq<char>| #![trigger ma[k2]] ma.dom().contains(k2) ==> tree_equiv(*ma[k2], *mb[k2], (n - 1) as nat)
        } by {
            let ma = assoc_map(a.breakdowns()[k1]@);
            assert forall|k2: Seq<char>| #![trigger ma[k2]] ma.dom().contains(k2) implies tree_equiv(
                *ma[k2],
                *ma[k2],
                (n - 1) as nat,
            ) by {
                lemma_tree_equiv_same(*ma[k2], *ma[k2], (n - 1) as nat);
            }
        }
    }
}

/// Merging the same breakdowns of the same data twice gives what merging
/// them once gives: applying breakdowns is idempotent.
pub proof fn lemma_apply_idempotent(
    t0: u64,
    b0: Map<Seq<char>, CounterBreakdown>,
    v1: CounterValue,
    v2: CounterValue,
    data: Seq<(KeyMetadata, u64)>,
    idx: Seq<usize>,
    bds: Seq<BreakdownLabel>,
    depth: nat,
)
    requires
        applied(t0, b0, v1, data, idx, bds, depth),
        applied(v1.total, v1.breakdowns(), v2, data, idx, bds, depth),
    ensures
        tree_equiv(v1, v2, if depth <= bds.len() { (bds.len() - depth) as nat } else { 0 }),
    decreases bds.len() - depth,
{
    let n: nat = if depth <= bds.len() { (bds.len() - depth) as nat } else { 0 };
    if depth >= bds.len() || real_keys(data, idx, bds[depth as int]) == Set::<Seq<char>>::empty() {
        lemma_tree_equiv_same(v1, v2, n);
    } else {
        let l = bds[depth as int];
        let key = label_key_of(l);
        let ks = real_keys(data, idx, l);
        let m0 = entries_of(b0, key);
        let b1 = v1.breakdowns();
        let m1 = assoc_map(b1[key]@);
        let b2 = v2.breakdowns();
        let m2 = assoc_map(b2[key]@);
        assert(entries_of(b1, key) == m1);
        assert(m2.dom() =~= m1.dom());
        assert forall|k1: Seq<char>| #![trigger b1[k1]] b1.dom().contains(k1) implies {
            let ma = assoc_map(b1[k1]@);
            let mb = assoc_map(b2[k1]@);
            &&& ma.dom() == mb.dom()
            &&& forall|k2: Seq<char>| #![trigger ma[k2]] ma.dom().contains(k2) ==> tree_equiv(*ma[k2], *mb[k2], (n - 1) as nat)
        } by {
            let ma = assoc_map(b1[k1]@);
            let mb = assoc_map(b2[k1]@);
            if k1 == key {
                assert forall|k2: Seq<char>| #![trigger ma[k2]] ma.dom().contains(k2) implies tree_equiv(
                    *ma[k2],
                    *mb[k2],
                    (n - 1) as nat,
                ) by {
                    if ks.contains(k2) {
                        assert(applied(
                            start_total(m0, data, idx, l, k2),
                            start_breakdowns(m0, k2),
                            *m1[k2],
                            data,
                            group_of(data, idx, l, k2),
                            bds,
                            depth + 1,
                        ));
                        assert(applied(
                            start_total(m1, data, idx, l, k2),
                            start_breakdowns(m1, k2),
                            *m2[k2],
                            data,
                            group_of(data, idx, l, k2),
                            bds,
                            depth + 1,
                        ));
                        lemma_apply_idempotent(
                            start_total(m0, data, idx, l, k2),
                            start_breakdowns(m0, k2),
                            *m1[k2],
                            *m2[k2],
                            data,
                            group_of(data, idx, l, k2),
                            bds,
                            depth + 1,
                        );
                    } else {
                        assert(m2[k2] == m1[k2]);
                        lemma_tree_equiv_same(*ma[k2], *mb[k2], (n - 1) as nat);
                    }
                }
            } else {
                assert(b2[k1] == b1[k1]);
                assert forall|k2: Seq<char>| #![trigger ma[k2]] ma.dom().contains(k2) implies tree_equiv(
                    *ma[k2],
                    *mb[k2],
                    (n - 1) as nat,
                ) by {
                    lemma_tree_equiv_same(*ma[k2], *mb[k2], (n - 1) as nat);
                }
            }
        }
        assert(b2.dom() =~= b1.dom());
    }
}

/// When no spec matches the metric name, or a matching spec breaks down by
/// all labels, every label is kept, in order.
pub proof fn lemma_keeps_all_labels(specs: Seq<MetricSpec>, name: Seq<char>, labels: Seq<(String, String)>)
    requires
        keeps_all_labels(specs, name),
    ensures
        kept_labels(specs, name, labels) == labels,
    decreases labels.len(),
{
    if labels.len() > 0 {
        lemma_keeps_all_labels(specs, name, labels.drop_last());
        assert(labels.drop_last().push(labels.last()) =~= labels);
    }
}

/// Maximum number of samples a histogram keeps for percentiles.
pub const HISTOGRAM_RESERVOIR_SIZE: usize = 10_000;

/// One step of the xorshift64 generator (shifts 13, 7, 17).
pub open spec fn xorshift_step(s: u64) -> u64 {
    let a = s ^ ((s << 13u64) as u64);
    let b = a ^ (a >> 7u64);
    b ^ ((b << 17u64) as u64)
}

/// The next state (and output) of the xorshift64 generator used for
/// reservoir sampling.
pub fn next_random(state: u64) -> (r: u64)
    ensures
        r == xorshift_step(state),
{
    let mut s = state;
    s = s ^ (s << 13u64);
    s = s ^ (s >> 7u64);
    s = s ^ (s << 17u64);
    s
}

/// The generator never reaches zero from a non-zero state.
pub proof fn lemma_xorshift_nonzero(s: u64)
    requires
        s != 0,
    ensures
        xorshift_step(s) != 0,
{
    let a = s ^ ((s << 13u64) as u64);
    let b = a ^ (a >> 7u64);
    assert(s != 0 ==> s ^ ((s << 13u64) as u64) != 0) by (bit_vector);
    assert(a != 0 ==> a ^ (a >> 7u64) != 0) by (bit_vector);
    assert(b != 0 ==> b ^ ((b << 17u64) as u64) != 0) by (bit_vector);
}

/// Where the `n`-th sample (counting from 1) goes in a reservoir, by
/// Algorithm R: appended while the reservoir is not full, otherwise into
/// slot `random % n` if that slot exists, else dropped.
pub open spec fn reservoir_slot_of(n: u64, random: u64) -> Option<usize> {
    if n <= HISTOGRAM_RESERVOIR_SIZE {
        Some((n - 1) as usize)
    } else if random % n < HISTOGRAM_RESERVOIR_SIZE {
        Some((random % n) as usize)
    } else {
        None
    }
}

/// The reservoir slot of the `n`-th sample given a random number: the slot
/// to write (equal to the current length when the sample is appended), or
/// `None` when the sample is dropped.
pub fn reservoir_slot(n: u64, random: u64) -> (r: Option<usize>)
    requires
        n >= 1,
    ensures
        r == reservoir_slot_of(n, random),
        r matches Some(j) ==> j < HISTOGRAM_RESERVOIR_SIZE,
{
    if n <= HISTOGRAM_RESERVOIR_SIZE as u64 {
        Some((n - 1) as usize)
    } else {
        let j = random % n;
        if j < HISTOGRAM_RESERVOIR_SIZE as u64 {
            Some(j as usize)
        } else {
            None
        }
    }
}

/// A metric name as the Prometheus exposition format writes it: each `.`
/// becomes `_`.
pub open spec fn prom_name(name: Seq<char>) -> Seq<char> {
    Seq::new(name.len(), |i: int| if name[i] == '.' { '_' } else { name[i] })
}

/// The name of a metric in the Prometheus exposition format.
pub fn prometheus_name(name: &str) -> (r: String)
    ensures
        r@ == prom_name(name@),
{
    let chars = str_chars(name);
    let mut out = String::new();
    let mut i: usize = 0;
    while i < chars.len()
        invariant
            chars@ == name@,
            i <= chars@.len(),
            out@ == prom_name(name@.take(i as int)),
        decreases chars.len() - i,
    {
        let c = chars[i];
        if c == '.' {
            string_push(&mut out, '_');
        } else {
            string_push(&mut out, c);
        }
        assert(out@ =~= prom_name(name@.take(i + 1)));
        i = i + 1;
    }
    assert(name@.take(chars@.len() as int) =~= name@);
    out
}

/// The exposition lines of a counter's total: its type line, then its value.
pub open spec fn prom_counter_total(name: Seq<char>, value: nat) -> Seq<char> {
    "# TYPE "@ + prom_name(name) + " counter\n"@ + prom_name(name) + " "@ + decimal(value) + "\n"@
}

/// The exposition line of a counter's value on one node.
pub open spec fn prom_counter_node(name: Seq<char>, node: Seq<char>, value: nat) -> Seq<char> {
    prom_name(name) + "{node=\""@ + node + "\"} "@ + decimal(value) + "\n"@
}

/// The Prometheus exposition lines of a counter's total.
pub fn prometheus_counter_total(name: &str, value: u64) -> (r: String)
    ensures
        r@ == prom_counter_total(name@, value as nat),
{
    let pname = prometheus_name(name);
    let mut out = String::new();
    push_str(&mut out, "# TYPE ");
    push_str(&mut out, pname.as_str());
    push_str(&mut out, " counter\n");
    push_str(&mut out, pname.as_str());
    push_str(&mut out, " ");
    push_decimal(&mut out, value);
    push_str(&mut out, "\n");
    assert(out@ =~= prom_counter_total(name@, value as nat));
    out
}

/// The Prometheus exposition line of a counter's value on one node.
pub fn prometheus_counter_node(name: &str, node: &str, value: u64) -> (r: String)
    ensures
        r@ == prom_counter_node(name@, node@, value as nat),
{
    let mut out = prometheus_name(name);
    push_str(&mut out, "{node=\"");
    push_str(&mut out, node);
    push_str(&mut out, "\"} ");
    push_decimal(&mut out, value);
    push_str(&mut out, "\n");
    assert(out@ =~= prom_counter_node(name@, node@, value as nat));
    out
}

/// The index of the `p`-th percentile among `len` sorted samples: `p`
/// percent of the way from the first index to the last, rounded to the
/// nearest index (halves up), and no further than the last index.
pub open spec fn percentile_rank(len: nat, p: nat) -> nat {
    let r = (p * (len - 1) + 50) / 100;
    if r < len - 1 {
        r as nat
    } else {
        (len - 1) as nat
    }
}

/// The index of the `p`-th percentile among `len` sorted samples.
pub fn percentile_index(len: usize, p: u64) -> (i: usize)
    requires
        len > 0,
    ensures
        i == percentile_rank(len as nat, p as nat),
        i < len,
{
    let last: usize = len - 1;
    assert((p as int) * (last as int) <= 0xffff_ffff_ffff_ffff * 0xffff_ffff_ffff_ffff) by (nonlinear_arith)
        requires
            0 <= p <= 0xffff_ffff_ffff_ffff,
            0 <= last <= 0xffff_ffff_ffff_ffff,
    ;
    let prod: u128 = (p as u128) * (last as u128);
    let r: u128 = (prod + 50) / 100;
    if r < last as u128 {
        r as usize
    } else {
        last
    }
}

/// A percentile's index never decreases as the percentile grows.
pub proof fn lemma_percentile_monotonic(len: nat, p: nat, q: nat)
    requires
        len > 0,
        p <= q,
    ensures
        percentile_rank(len, p) <= percentile_rank(len, q),
{
    assert(p * (len - 1) <= q * (len - 1)) by (nonlinear_arith)
        requires
            p <= q,
            len >= 1,
    ;
    assert((p * (len - 1) + 50) / 100 <= (q * (len - 1) + 50) / 100) by (nonlinear_arith)
        requires
            p * (len - 1) <= q * (len - 1),
    ;
}

/// The sum of the values at the positions `idx`, or `None` when it does not
/// fit in 64 bits.
fn checked_sum_at(data: &[(KeyMetadata, u64)], idx: &Vec<usize>) -> (r: Option<u64>)
    requires
        valid_positions(data@, idx@),
    ensures
        match r {
            Some(t) => t == value_sum(data@, idx@),
            None => value_sum(data@, idx@) > u64::MAX,
        },
{
    let mut total: u64 = 0;
    let mut j: usize = 0;
    assert(idx@.take(0) =~= Seq::<usize>::empty());
    while j < idx.len()
        invariant
            j <= idx@.len(),
            valid_positions(data@, idx@),
            total == value_sum(data@, idx@.take(j as int)),
        decreases idx@.len() - j,
    {
        proof {
            lemma_value_sum_take(data@, idx@, j as int);
        }
        let v = data[idx[j]].1;
        if v > u64::MAX - total {
            return None;
        }
        total = total + v;
        j = j + 1;
    }
    assert(idx@.take(idx@.len() as int) =~= idx@);
    Some(total)
}

fn sums_fit_at(data: &[(KeyMetadata, u64)], idx: &Vec<usize>, bds: &[BreakdownLabel], depth: usize) -> (r: bool)
    requires
        valid_positions(data@, idx@),
    ensures
        r == sums_fit(data@, idx@, bds@, depth as nat),
    decreases bds@.len() - depth,
{
    if depth >= bds.len() {
        return true;
    }
    let label = bds[depth];
    let ghost l = label;
    let grouped = breakdown_groups(data, idx, label);
    let ghost gm = assoc_map(grouped@);
    let next = depth + 1;
    let mut g: usize = 0;
    while g < grouped.len()
        invariant
            g <= grouped@.len(),
            depth < bds@.len(),
            next == depth + 1,
            l == bds@[depth as int],
            valid_positions(data@, idx@),
            distinct_keys(grouped@),
            gm == assoc_map(grouped@),
            forall|k: Seq<char>| gm.dom().contains(k) <==> real_keys(data@, idx@, l).contains(k),
            forall|k: Seq<char>| #[trigger] gm.dom().contains(k) ==> gm[k]@ == group_of(data@, idx@, l, k),
            forall|i: int|
                0 <= i < g ==> value_sum(data@, group_of(data@, idx@, l, (#[trigger] grouped@[i]).0@))
                    <= u64::MAX && sums_fit(data@, group_of(data@, idx@, l, grouped@[i].0@), bds@, next as nat),
        decreases grouped@.len() - g,
    {
        let ghost k = grouped@[g as int].0@;
        proof {
            lemma_assoc_index(grouped@, g as int);
            lemma_group_valid(data@, idx@, l, k);
            assert(real_keys(data@, idx@, l).contains(k));
            assert(group_of(data@, idx@, l, k) == group_of(data@, idx@, bds@[depth as int], k));
        }
        match checked_sum_at(data, &grouped[g].1) {
            None => {
                return false;
            },
            Some(_) => {},
        }
        if !sums_fit_at(data, &grouped[g].1, bds, next) {
            return false;
        }
        g = g + 1;
    }
    proof {
        assert forall|k: Seq<char>|
            #![trigger group_of(data@, idx@, bds@[depth as int], k)]
            real_keys(data@, idx@, bds@[depth as int]).contains(k) implies value_sum(
                data@,
                group_of(data@, idx@, bds@[depth as int], k),
            ) <= u64::MAX && sums_fit(data@, group_of(data@, idx@, bds@[depth as int], k), bds@, depth as nat + 1) by {
            lemma_assoc_dom(grouped@, k);
            let i = choose|i: int| 0 <= i < grouped@.len() && (#[trigger] grouped@[i]).0@ == k;
        }
    }
    true
}

/// Whether every group sum of the breakdowns `breakdowns[depth..]` of the
/// data fits in 64 bits (the condition of `apply_counter_breakdowns`).
pub fn breakdown_sums_fit(data: &[(KeyMetadata, u64)], breakdowns: &[BreakdownLabel], depth: usize) -> (r: bool)
    ensures
        r == sums_fit(data@, all_positions(data@.len()), breakdowns@, depth as nat),
{
    let mut idx: Vec<usize> = Vec::new();
    let mut i: usize = 0;
    while i < data.len()
        invariant
            i <= data@.len(),
            idx@ == all_positions(i as nat),
        decreases data@.len() - i,
    {
        idx.push(i);
        assert(idx@ =~= all_positions(i as nat + 1));
        i = i + 1;
    }
    sums_fit_at(data, &idx, breakdowns, depth)
}

/// Whether the sum of all values of the data fits in 64 bits.
pub fn total_fits(data: &[(KeyMetadata, u64)]) -> (r: bool)
    ensures
        r == (value_sum(data@, all_positions(data@.len())) <= u64::MAX),
{
    let mut idx: Vec<usize> = Vec::new();
    let mut i: usize = 0;
    while i < data.len()
        invariant
            i <= data@.len(),
            idx@ == all_positions(i as nat),
        decreases data@.len() - i,
    {
        idx.push(i);
        assert(idx@ =~= all_positions(i as nat + 1));
        i = i + 1;
    }
    checked_sum_at(data, &idx).is_some()
}

/// Add `v` to the value under `key` unless the sum would overflow; returns
/// whether it was added.
fn try_add_to(list: &mut Vec<(String, u64)>, key: &String, v: u64) -> (added: bool)
    requires
        distinct_keys(old(list)@),
    ensures
        distinct_keys(final(list)@),
        added == (value_or_zero(assoc_map(old(list)@), key@) + v <= u64::MAX),
        added ==> assoc_map(final(list)@) == assoc_map(old(list)@).insert(
            key@,
            (value_or_zero(assoc_map(old(list)@), key@) + v) as u64,
        ),
        !added ==> final(list)@ == old(list)@,
{
    let ghost before = list@;
    match find_key(list, key) {
        Some(pos) => {
            proof {
                lemma_assoc_index(before, pos as int);
            }
            if list[pos].1 > u64::MAX - v {
                return false;
            }
            add_to(list, key, v);
            true
        },
        None => {
            add_to(list, key, v);
            true
        },
    }
}

/// Whether the sum of the values of every metric name fits in 64 bits (the
/// condition of `snapshot_counters`).
pub fn name_sums_fit(data: &[(KeyMetadata, u64)]) -> (r: bool)
    ensures
        r == forall|name: Seq<char>| #[trigger] name_sum(data@, name) <= u64::MAX,
{
    let mut totals: Vec<(String, u64)> = Vec::new();
    let mut i: usize = 0;
    assert(data@.take(0) =~= Seq::<(KeyMetadata, u64)>::empty());
    while i < data.len()
        invariant
            i <= data@.len(),
            distinct_keys(totals@),
            forall|name: Seq<char>|
                #[trigger] value_or_zero(assoc_map(totals@), name) == name_sum(data@.take(i as int), name),
        decreases data@.len() - i,
    {
        let v = data[i].1;
        let name = data[i].0.name.clone();
        let ghost totals_before = assoc_map(totals@);
        let ghost nxt = data@.take(i + 1);
        proof {
            lemma_sums_take(data@, i as int, name@, name@);
            assert(nxt[i as int] == data@[i as int]);
        }
        if !try_add_to(&mut totals, &name, v) {
            proof {
                assert(value_or_zero(totals_before, name@) == name_sum(data@.take(i as int), name@));
                assert(name_sum(data@, name@) > u64::MAX);
            }
            return false;
        }
        proof {
            assert forall|k: Seq<char>| #[trigger] value_or_zero(assoc_map(totals@), k) == name_sum(nxt, k) by {
                lemma_sums_take(data@, i as int, k, k);
                assert(value_or_zero(totals_before, k) == name_sum(data@.take(i as int), k));
            }
        }
        i = i + 1;
    }
    assert(data@.take(data@.len() as int) =~= data@);
    assert forall|name: Seq<char>| #[trigger] name_sum(data@, name) <= u64::MAX by {
        assert(value_or_zero(assoc_map(totals@), name) == name_sum(data@, name));
    }
    true
}

} // verus!

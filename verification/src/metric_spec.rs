//! Metric specification parsing and breakdown configuration.
//!
//! Syntax: `<metric-pattern>[/<breakdown1>[/<breakdown2>...]]` or
//! `<metric-pattern>/*`, where the pattern is a glob (`*` matches any
//! sequence), each breakdown is a label name to group by, and a lone `*`
//! breakdown means "all labels present in the data".
use vstd::prelude::*;
use crate::assoc::{
    assoc_map, distinct_keys, find_key, lemma_assoc_dom, lemma_assoc_index, lemma_assoc_push, lemma_assoc_update, lemma_distinct_push,
};
use crate::glob::{glob, glob_match_chars};
use crate::text::{
    lower, chars_eq_str, split_chars, split_on, str_chars, string_from_chars,
    to_lower, trim, trim_chars, lemma_split_on_nonempty,
};

verus! {

/// Known breakdown labels that can be used for aggregation.
#[derive(Debug, Clone, Copy, PartialEq, Eq, Hash, Structural)]
pub enum BreakdownLabel {
    /// Break down by individual node name.
    Node,
    /// Break down by node type (repeater, client, etc.).
    NodeType,
    /// Break down by group membership.
    Group,
    /// Break down by route type (flood, direct, transport_flood, transport_direct).
    RouteType,
    /// Break down by payload type.
    PayloadType,
    /// Break down by payload hash (unique packet identifier).
    PayloadHash,
}

/// The breakdown label named by an already lower-cased name, with its aliases.
pub open spec fn label_of_name(s: Seq<char>) -> Option<BreakdownLabel> {
    if s == "node"@ {
        Some(BreakdownLabel::Node)
    } else if s == "node_type"@ || s == "nodetype"@ || s == "type"@ {
        Some(BreakdownLabel::NodeType)
    } else if s == "group"@ || s == "groups"@ {
        Some(BreakdownLabel::Group)
    } else if s == "route_type"@ || s == "routetype"@ || s == "route"@ {
        Some(BreakdownLabel::RouteType)
    } else if s == "payload_type"@ || s == "payloadtype"@ || s == "packet_type"@ {
        Some(BreakdownLabel::PayloadType)
    } else if s == "payload_hash"@ || s == "payloadhash"@ || s == "hash"@ {
        Some(BreakdownLabel::PayloadHash)
    } else {
        None
    }
}

/// The metric label key of a breakdown label.
pub open spec fn label_key_of(l: BreakdownLabel) -> Seq<char> {
    match l {
        BreakdownLabel::Node => "node"@,
        BreakdownLabel::NodeType => "node_type"@,
        BreakdownLabel::Group => "groups"@,
        BreakdownLabel::RouteType => "route_type"@,
        BreakdownLabel::PayloadType => "payload_type"@,
        BreakdownLabel::PayloadHash => "payload_hash"@,
    }
}

/// Nesting position of a label in wildcard breakdowns: group, node type,
/// node, route type, payload type, payload hash.
pub open spec fn sort_order_of(l: BreakdownLabel) -> u8 {
    match l {
        BreakdownLabel::Group => 1,
        BreakdownLabel::NodeType => 2,
        BreakdownLabel::Node => 3,
        BreakdownLabel::RouteType => 4,
        BreakdownLabel::PayloadType => 5,
        BreakdownLabel::PayloadHash => 6,
    }
}

/// The breakdown label of a name, compared after lower-casing.
fn label_from_chars(s: &[char]) -> (r: Option<BreakdownLabel>)
    ensures
        r == label_of_name(lower(s@)),
{
    let l = to_lower(s);
    let l = l.as_slice();
    if chars_eq_str(l, "node") {
        Some(BreakdownLabel::Node)
    } else if chars_eq_str(l, "node_type") || chars_eq_str(l, "nodetype") || chars_eq_str(l, "type") {
        Some(BreakdownLabel::NodeType)
    } else if chars_eq_str(l, "group") || chars_eq_str(l, "groups") {
        Some(BreakdownLabel::Group)
    } else if chars_eq_str(l, "route_type") || chars_eq_str(l, "routetype") || chars_eq_str(l, "route") {
        Some(BreakdownLabel::RouteType)
    } else if chars_eq_str(l, "payload_type") || chars_eq_str(l, "payloadtype") || chars_eq_str(l, "packet_type") {
        Some(BreakdownLabel::PayloadType)
    } else if chars_eq_str(l, "payload_hash") || chars_eq_str(l, "payloadhash") || chars_eq_str(l, "hash") {
        Some(BreakdownLabel::PayloadHash)
    } else {
        None
    }
}

impl BreakdownLabel {
    /// Parse a breakdown label from a string, ignoring case; `None` for
    /// unknown names.
    pub fn from_str(s: &str) -> (r: Option<Self>)
        ensures
            r == label_of_name(lower(s@)),
    {
        let chars = str_chars(s);
        label_from_chars(chars.as_slice())
    }

    /// Get the label key name as used in metrics.
    pub fn label_key(&self) -> (k: &'static str)
        ensures
            k@ == label_key_of(*self),
    {
        match self {
            BreakdownLabel::Node => "node",
            BreakdownLabel::NodeType => "node_type",
            BreakdownLabel::Group => "groups",
            BreakdownLabel::RouteType => "route_type",
            BreakdownLabel::PayloadType => "payload_type",
            BreakdownLabel::PayloadHash => "payload_hash",
        }
    }

    /// Get the sort order for this breakdown label when using wildcard breakdowns.
    pub fn sort_order(&self) -> (o: u8)
        ensures
            o == sort_order_of(*self),
    {
        match self {
            BreakdownLabel::Group => 1,
            BreakdownLabel::NodeType => 2,
            BreakdownLabel::Node => 3,
            BreakdownLabel::RouteType => 4,
            BreakdownLabel::PayloadType => 5,
            BreakdownLabel::PayloadHash => 6,
        }
    }
}

/// Distinct labels have distinct sort orders, so sorting by sort order puts
/// labels in one fixed sequence.
pub proof fn lemma_sort_order_injective(a: BreakdownLabel, b: BreakdownLabel)
    ensures
        sort_order_of(a) == sort_order_of(b) ==> a == b,
        1 <= sort_order_of(a) <= 6,
{
}

/// Parsing a label's own metric key gives the label back.
pub proof fn lemma_label_key_roundtrip(l: BreakdownLabel)
    ensures
        label_of_name(lower(label_key_of(l))) == Some(l),
{
    reveal_strlit("node");
    reveal_strlit("node_type");
    reveal_strlit("nodetype");
    reveal_strlit("type");
    reveal_strlit("group");
    reveal_strlit("groups");
    reveal_strlit("route_type");
    reveal_strlit("routetype");
    reveal_strlit("route");
    reveal_strlit("payload_type");
    reveal_strlit("payloadtype");
    reveal_strlit("packet_type");
    reveal_strlit("payload_hash");
    reveal_strlit("payloadhash");
    reveal_strlit("hash");
    let k = label_key_of(l);
    assert(lower(k) =~= k);
    match l {
        BreakdownLabel::Node => {},
        BreakdownLabel::NodeType => {
            assert(k != "node"@);
        },
        BreakdownLabel::Group => {
            assert(k != "node"@ && k != "node_type"@ && k != "nodetype"@ && k != "type"@);
            assert(k != "group"@);
        },
        BreakdownLabel::RouteType => {
            assert(k != "node"@ && k != "node_type"@ && k != "nodetype"@ && k != "type"@);
            assert(k != "group"@ && k != "groups"@);
        },
        BreakdownLabel::PayloadType => {
            assert(k != "node"@ && k != "node_type"@ && k != "nodetype"@ && k != "type"@);
            assert(k != "group"@ && k != "groups"@);
            assert(k != "route_type"@ && k != "routetype"@ && k != "route"@);
        },
        BreakdownLabel::PayloadHash => {
            assert(k != "node"@ && k != "node_type"@ && k != "nodetype"@ && k != "type"@);
            assert(k != "group"@ && k != "groups"@);
            assert(k != "route_type"@ && k != "routetype"@ && k != "route"@);
            assert(k[8] != "payload_type"@[8]);
            assert(k != "payload_type"@ && k != "payloadtype"@);
            assert(k[2] != "packet_type"@[2]);
            assert(k != "packet_type"@);
        },
    }
}

/// Lower-casing twice is lower-casing once.
pub proof fn lemma_lower_idempotent(s: Seq<char>)
    ensures
        lower(lower(s)) == lower(s),
{
    assert forall|i: int| 0 <= i < s.len() implies lower(lower(s))[i] == lower(s)[i] by {
        let c = s[i];
        if 'A' <= c && c <= 'Z' {
            assert(((c as u32) + 32) as char >= 'a');
        }
    }
    assert(lower(lower(s)) =~= lower(s));
}

/// The breakdown names the specification syntax documents, in any case,
/// name their labels: `node`; `node_type`, `nodetype`, `type`; `group`,
/// `groups`; `route_type`, `routetype`, `route`; `payload_type`,
/// `payloadtype`, `packet_type`; `payload_hash`, `payloadhash`, `hash`.
/// A name names the same label as its lower-cased form.
pub proof fn lemma_documented_breakdown_names(s: Seq<char>)
    ensures
        lower(s) == "node"@ ==> label_of_name(lower(s)) == Some(BreakdownLabel::Node),
        lower(s) == "node_type"@ || lower(s) == "nodetype"@ || lower(s) == "type"@ ==> label_of_name(lower(s))
            == Some(BreakdownLabel::NodeType),
        lower(s) == "group"@ || lower(s) == "groups"@ ==> label_of_name(lower(s)) == Some(BreakdownLabel::Group),
        lower(s) == "route_type"@ || lower(s) == "routetype"@ || lower(s) == "route"@ ==> label_of_name(lower(s))
            == Some(BreakdownLabel::RouteType),
        lower(s) == "payload_type"@ || lower(s) == "payloadtype"@ || lower(s) == "packet_type"@ ==> label_of_name(
            lower(s),
        ) == Some(BreakdownLabel::PayloadType),
        lower(s) == "payload_hash"@ || lower(s) == "payloadhash"@ || lower(s) == "hash"@ ==> label_of_name(lower(s))
            == Some(BreakdownLabel::PayloadHash),
        label_of_name(lower(lower(s))) == label_of_name(lower(s)),
{
    lemma_lower_idempotent(s);
    reveal_strlit("node");
    reveal_strlit("node_type");
    reveal_strlit("nodetype");
    reveal_strlit("type");
    reveal_strlit("group");
    reveal_strlit("groups");
    reveal_strlit("route_type");
    reveal_strlit("routetype");
    reveal_strlit("route");
    reveal_strlit("payload_type");
    reveal_strlit("payloadtype");
    reveal_strlit("packet_type");
    reveal_strlit("payload_hash");
    reveal_strlit("payloadhash");
    reveal_strlit("hash");
    let l = lower(s);
    if l == "group"@ {
        assert(l != "node"@);
        assert(l[0] != "node_type"@[0] && l[0] != "nodetype"@[0] && l[0] != "type"@[0]);
    }
    if l == "groups"@ {
        assert(l != "node"@);
        assert(l[0] != "node_type"@[0] && l[0] != "nodetype"@[0] && l[0] != "type"@[0]);
    }
    if l == "route_type"@ || l == "routetype"@ || l == "route"@ {
        assert(l[0] != "node"@[0] && l[0] != "node_type"@[0] && l[0] != "nodetype"@[0] && l[0] != "type"@[0]);
        assert(l[0] != "group"@[0] && l[0] != "groups"@[0]);
    }
    if l == "payload_type"@ || l == "payloadtype"@ || l == "packet_type"@ {
        assert(l[0] != "node"@[0] && l[0] != "node_type"@[0] && l[0] != "nodetype"@[0] && l[0] != "type"@[0]);
        assert(l[0] != "group"@[0] && l[0] != "groups"@[0]);
        assert(l[0] != "route_type"@[0] && l[0] != "routetype"@[0] && l[0] != "route"@[0]);
    }
    if l == "payload_hash"@ || l == "payloadhash"@ || l == "hash"@ {
        assert(l[0] != "node"@[0] && l[0] != "node_type"@[0] && l[0] != "nodetype"@[0]);
        assert(l[0] != "group"@[0] && l[0] != "groups"@[0]);
        assert(l[0] != "route_type"@[0] && l[0] != "routetype"@[0] && l[0] != "route"@[0]);
        if l == "hash"@ {
            assert(l[1] != "type"@[1]);
        } else {
            assert(l[0] != "type"@[0]);
            assert(l[8] != "payload_type"@[8]);
            assert(l != "payload_type"@ && l != "payloadtype"@);
            assert(l[2] != "packet_type"@[2]);
        }
    }
    if l == "type"@ {
        assert(l[0] != "node"@[0]);
    }
    if l == "node_type"@ || l == "nodetype"@ {
        assert(l.len() != "node"@.len());
    }
}

/// Errors that can occur when parsing a metric specification.
#[derive(Debug, Clone)]
pub enum MetricSpecError {
    /// Empty metric specification.
    EmptySpec,
    /// Empty metric pattern.
    EmptyPattern,
    /// Unknown breakdown label at a position (1 for the first breakdown).
    UnknownBreakdown {
        /// The label as written (trimmed).
        label: String,
        /// Position of the breakdown.
        position: usize,
    },
    /// Duplicate breakdown label.
    DuplicateBreakdown(String),
    /// Wildcard breakdown `*` must be the only breakdown.
    WildcardBreakdownNotAlone,
}

/// The error outcomes of parsing, with texts as character sequences.
pub enum ParseFailure {
    /// Empty metric specification.
    EmptySpec,
    /// Empty metric pattern.
    EmptyPattern,
    /// Unknown breakdown label and its position.
    UnknownBreakdown(Seq<char>, nat),
    /// Duplicate breakdown label.
    DuplicateBreakdown(Seq<char>),
    /// Wildcard breakdown not alone.
    WildcardBreakdownNotAlone,
}

/// The failure that an error value describes.
pub open spec fn failure_of(e: MetricSpecError) -> ParseFailure {
    match e {
        MetricSpecError::EmptySpec => ParseFailure::EmptySpec,
        MetricSpecError::EmptyPattern => ParseFailure::EmptyPattern,
        MetricSpecError::UnknownBreakdown { label, position } => ParseFailure::UnknownBreakdown(
            label@,
            position as nat,
        ),
        MetricSpecError::DuplicateBreakdown(l) => ParseFailure::DuplicateBreakdown(l@),
        MetricSpecError::WildcardBreakdownNotAlone => ParseFailure::WildcardBreakdownNotAlone,
    }
}

/// The breakdown labels of the parts `parts[i..]` appended to `acc`, read in
/// order: empty parts (after trimming) are skipped, `*` is an error, a known
/// label already present is a duplicate, and an unknown name is reported with
/// its part index.
pub open spec fn scan_breakdowns(parts: Seq<Seq<char>>, i: nat, acc: Seq<BreakdownLabel>) -> Result<
    Seq<BreakdownLabel>,
    ParseFailure,
>
    decreases parts.len() - i,
{
    if i >= parts.len() {
        Ok(acc)
    } else {
        let part = trim(parts[i as int]);
        if part.len() == 0 {
            scan_breakdowns(parts, i + 1, acc)
        } else if part == "*"@ {
            Err(ParseFailure::WildcardBreakdownNotAlone)
        } else {
            match label_of_name(lower(part)) {
                Some(l) => if acc.contains(l) {
                    Err(ParseFailure::DuplicateBreakdown(part))
                } else {
                    scan_breakdowns(parts, i + 1, acc.push(l))
                },
                None => Err(ParseFailure::UnknownBreakdown(part, i)),
            }
        }
    }
}

/// The meaning of a metric specification string: its trimmed pattern, its
/// breakdown labels, and whether it asks for all labels.
pub open spec fn parse_spec(s: Seq<char>) -> Result<(Seq<char>, Seq<BreakdownLabel>, bool), ParseFailure> {
    let parts = split_on(s, '/');
    let pattern = trim(parts[0]);
    if pattern.len() == 0 {
        Err(ParseFailure::EmptyPattern)
    } else if parts.len() == 2 && trim(parts[1]) == "*"@ {
        Ok((pattern, Seq::empty(), true))
    } else {
        match scan_breakdowns(parts, 1, Seq::empty()) {
            Ok(b) => Ok((pattern, b, false)),
            Err(e) => Err(e),
        }
    }
}

/// A parsed metric specification.
#[derive(Debug, Clone)]
pub struct MetricSpec {
    /// Glob pattern for metric names (e.g., "mcsim.radio.*").
    pub pattern: String,
    /// Ordered list of breakdown labels.
    pub breakdowns: Vec<BreakdownLabel>,
    /// If true, break down by all available labels found in the metric data.
    pub breakdown_all: bool,
}

fn contains_label(v: &Vec<BreakdownLabel>, l: BreakdownLabel) -> (r: bool)
    ensures
        r == v@.contains(l),
{
    let mut i: usize = 0;
    while i < v.len()
        invariant
            i <= v@.len(),
            forall|k: int| 0 <= k < i ==> v@[k] != l,
        decreases v@.len() - i,
    {
        if v[i] == l {
            return true;
        }
        i = i + 1;
    }
    false
}

impl MetricSpec {
    /// Parse a metric specification string.
    pub fn parse(s: &str) -> (r: Result<Self, MetricSpecError>)
        ensures
            match r {
                Ok(spec) => parse_spec(s@) == Ok::<_, ParseFailure>(
                    (spec.pattern@, spec.breakdowns@, spec.breakdown_all),
                ),
                Err(e) => parse_spec(s@) == Err::<(Seq<char>, Seq<BreakdownLabel>, bool), _>(
                    failure_of(e),
                ),
            },
    {
        let chars = str_chars(s);
        let parts = split_chars(chars.as_slice(), '/');
        let ghost pv = split_on(s@, '/');
        proof {
            lemma_split_on_nonempty(s@, '/');
        }
        if parts.len() == 0 {
            return Err(MetricSpecError::EmptySpec);
        }
        let pattern_chars = trim_chars(parts[0].as_slice());
        if pattern_chars.len() == 0 {
            return Err(MetricSpecError::EmptyPattern);
        }
        let pattern = string_from_chars(pattern_chars.as_slice());
        if parts.len() == 2 {
            let p1 = trim_chars(parts[1].as_slice());
            if chars_eq_str(p1.as_slice(), "*") {
                return Ok(MetricSpec { pattern, breakdowns: Vec::new(), breakdown_all: true });
            }
        }
        assert(parts@[0]@ == pv[0]);
        assert(parts@.len() == 2 ==> parts@[1]@ == pv[1]);
        assert(parse_spec(s@) == match scan_breakdowns(pv, 1, Seq::empty()) {
            Ok(b) => Ok::<_, ParseFailure>((pattern@, b, false)),
            Err(e) => Err(e),
        });
        let mut breakdowns: Vec<BreakdownLabel> = Vec::new();
        let mut i: usize = 1;
        while i < parts.len()
            invariant
                1 <= i <= parts@.len(),
                parse_spec(s@) == match scan_breakdowns(pv, 1, Seq::empty()) {
                    Ok(b) => Ok::<_, ParseFailure>((pattern@, b, false)),
                    Err(e) => Err(e),
                },
                parts@.len() == pv.len(),
                forall|k: int| 0 <= k < parts@.len() ==> (#[trigger] parts@[k])@ == pv[k],
                scan_breakdowns(pv, 1, Seq::empty()) == scan_breakdowns(pv, i as nat, breakdowns@),
            decreases parts@.len() - i,
        {
            let part = trim_chars(parts[i].as_slice());
            assert(part@ == trim(pv[i as int]));
            if part.len() == 0 {
                i = i + 1;
                continue;
            }
            if chars_eq_str(part.as_slice(), "*") {
                return Err(MetricSpecError::WildcardBreakdownNotAlone);
            }
            match label_from_chars(part.as_slice()) {
                Some(label) => {
                    if contains_label(&breakdowns, label) {
                        return Err(MetricSpecError::DuplicateBreakdown(string_from_chars(part.as_slice())));
                    }
                    breakdowns.push(label);
                },
                None => {
                    return Err(
                        MetricSpecError::UnknownBreakdown {
                            label: string_from_chars(part.as_slice()),
                            position: i,
                        },
                    );
                },
            }
            i = i + 1;
        }
        Ok(MetricSpec { pattern, breakdowns, breakdown_all: false })
    }

    /// Check if a metric name matches this spec's pattern.
    pub fn matches(&self, metric_name: &str) -> (b: bool)
        ensures
            b == glob(self.pattern@, metric_name@),
    {
        glob_match(self.pattern.as_str(), metric_name)
    }
}

/// The positions of the specifications whose pattern matches the metric
/// name, in increasing order.
pub fn matching_specs(specs: &[MetricSpec], metric_name: &str) -> (r: Vec<usize>)
    ensures
        forall|k: int|
            0 <= k < r@.len() ==> r@[k] < specs@.len() && glob(specs@[r@[k] as int].pattern@, metric_name@),
        forall|i: int|
            0 <= i < specs@.len() && glob(#[trigger] specs@[i].pattern@, metric_name@) ==> r@.contains(
                i as usize,
            ),
        forall|a: int, b: int| 0 <= a < b < r@.len() ==> r@[a] < r@[b],
{
    let mut r: Vec<usize> = Vec::new();
    let mut i: usize = 0;
    while i < specs.len()
        invariant
            i <= specs@.len(),
            forall|k: int|
                0 <= k < r@.len() ==> r@[k] < i && glob(specs@[r@[k] as int].pattern@, metric_name@),
            forall|j: int|
                0 <= j < i && glob(#[trigger] specs@[j].pattern@, metric_name@) ==> r@.contains(j as usize),
            forall|a: int, b: int| 0 <= a < b < r@.len() ==> r@[a] < r@[b],
        decreases specs@.len() - i,
    {
        if specs[i].matches(metric_name) {
            let ghost r0 = r@;
            r.push(i);
            assert forall|j: int|
                0 <= j < i && glob(#[trigger] specs@[j].pattern@, metric_name@) implies r@.contains(
                j as usize,
            ) by {
                let k = choose|k: int| 0 <= k < r0.len() && r0[k] == j as usize;
                assert(r@[k] == j as usize);
            }
            assert(r@[r@.len() - 1] == i);
        }
        i = i + 1;
    }
    r
}

/// One breakdown of a counter: the value of a label mapped to the counter
/// for the metrics carrying that value.
pub type CounterBreakdown = Vec<(String, Box<CounterValue>)>;

/// Counter value with optional breakdowns.
#[derive(Debug)]
pub struct CounterValue {
    /// The total/aggregated value.
    pub total: u64,
    /// Breakdowns by label name (e.g. "node", "node_type"), each mapping a
    /// label value to the nested counter of that value.
    pub labels: Vec<(String, CounterBreakdown)>,
}

impl CounterValue {
    /// The breakdowns, keyed by label name.
    pub open spec fn breakdowns(&self) -> Map<Seq<char>, CounterBreakdown> {
        assoc_map(self.labels@)
    }

    /// No label name occurs twice, and within each breakdown no label value
    /// occurs twice.
    pub open spec fn wf(&self) -> bool {
        &&& distinct_keys(self.labels@)
        &&& forall|i: int| 0 <= i < self.labels@.len() ==> distinct_keys((#[trigger] self.labels@[i]).1@)
    }

    /// Create a new counter value with just a total.
    pub fn new(total: u64) -> (c: Self)
        ensures
            c.total == total,
            c.labels@.len() == 0,
            c.breakdowns() == Map::<Seq<char>, CounterBreakdown>::empty(),
            c.wf(),
            deep_wf(c),
    {
        CounterValue { total, labels: Vec::new() }
    }

    /// Set a breakdown map for a given label.
    pub fn set_breakdown(&mut self, label: BreakdownLabel, values: CounterBreakdown)
        requires
            old(self).wf(),
            distinct_keys(values@),
        ensures
            final(self).wf(),
            final(self).total == old(self).total,
            final(self).breakdowns() == old(self).breakdowns().insert(label_key_of(label), values),
    {
        let key = label.label_key().to_owned();
        let ghost old_labels = self.labels@;
        match find_key(&self.labels, &key) {
            Some(i) => {
                let entry = (key, values);
                proof {
                    lemma_assoc_update(old_labels, i as int, entry);
                }
                self.labels.set(i, entry);
                assert(self.labels@ == old_labels.update(i as int, entry));
            },
            None => {
                let entry = (key, values);
                proof {
                    lemma_assoc_push(old_labels, entry);
                    lemma_distinct_push(old_labels, entry);
                }
                self.labels.push(entry);
            },
        }
    }

    /// Get a mutable reference to a breakdown map, creating it if needed.
    pub fn get_or_create_breakdown(&mut self, label: BreakdownLabel) -> (m: &mut CounterBreakdown)
        requires
            old(self).wf(),
        ensures
            old(self).breakdowns().dom().contains(label_key_of(label)) ==> *m == old(
                self,
            ).breakdowns()[label_key_of(label)],
            !old(self).breakdowns().dom().contains(label_key_of(label)) ==> m@.len() == 0,
            distinct_keys(m@),
            final(self).total == old(self).total,
            final(self).breakdowns() == old(self).breakdowns().insert(label_key_of(label), *final(m)),
            final(self).wf() == distinct_keys(final(m)@),
    {
        let key = label.label_key().to_owned();
        let ghost old_labels = self.labels@;
        let i = match find_key(&self.labels, &key) {
            Some(i) => i,
            None => {
                let entry = (key, Vec::new());
                proof {
                    lemma_assoc_push(old_labels, entry);
                    lemma_distinct_push(old_labels, entry);
                }
                self.labels.push(entry);
                self.labels.len() - 1
            },
        };
        let ghost cur = self.labels@;
        proof {
            lemma_assoc_index(cur, i as int);
        }
        let m = &mut self.labels[i].1;
        proof {
            lemma_assoc_update(cur, i as int, (cur[i as int].0, *final(m)));
        }
        m
    }
}

/// Well-formed at every level of nesting: each counter's breakdown keys and
/// label values are distinct.
pub open spec fn deep_wf(v: CounterValue) -> bool
    decreases v,
{
    &&& v.wf()
    &&& forall|i: int, j: int|
        #![trigger v.labels@[i].1@[j]]
        0 <= i < v.labels@.len() && 0 <= j < v.labels@[i].1@.len() ==> deep_wf(*v.labels@[i].1@[j].1)
}

/// For a well-formed counter, deep well-formedness is deep well-formedness
/// of every counter found under a breakdown key.
pub proof fn lemma_deep_wf_entries(v: CounterValue)
    requires
        v.wf(),
    ensures
        deep_wf(v) <==> (forall|k: Seq<char>, j: int|
            #![trigger v.breakdowns()[k]@[j]]
            v.breakdowns().dom().contains(k) && 0 <= j < v.breakdowns()[k]@.len() ==> deep_wf(
                *v.breakdowns()[k]@[j].1,
            )),
{
    let b = v.breakdowns();
    if deep_wf(v) {
        assert forall|k: Seq<char>, j: int|
            #![trigger b[k]@[j]]
            b.dom().contains(k) && 0 <= j < b[k]@.len() implies deep_wf(*b[k]@[j].1) by {
            lemma_assoc_dom(v.labels@, k);
            let i = choose|i: int| 0 <= i < v.labels@.len() && (#[trigger] v.labels@[i]).0@ == k;
            lemma_assoc_index(v.labels@, i);
            assert(b[k] == v.labels@[i].1);
            let e = v.labels@[i].1@[j];
        }
    }
    if forall|k: Seq<char>, j: int|
        #![trigger b[k]@[j]]
        b.dom().contains(k) && 0 <= j < b[k]@.len() ==> deep_wf(*b[k]@[j].1) {
        assert forall|i: int, j: int|
            #![trigger v.labels@[i].1@[j]]
            0 <= i < v.labels@.len() && 0 <= j < v.labels@[i].1@.len() implies deep_wf(
                *v.labels@[i].1@[j].1,
            ) by {
            lemma_assoc_index(v.labels@, i);
            assert(b[v.labels@[i].0@]@[j] == v.labels@[i].1@[j]);
        }
    }
}

/// Glob matching supporting `*` as a wildcard for any sequence of characters.
pub fn glob_match(pattern: &str, text: &str) -> (b: bool)
    ensures
        b == glob(pattern@, text@),
{
    let p = str_chars(pattern);
    let t = str_chars(text);
    glob_match_chars(p.as_slice(), t.as_slice())
}

} // verus!

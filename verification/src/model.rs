//! Merging the layers of a simulation model.
//!
//! A model is given as one or more layers (one per model file), each with
//! node and edge defaults, nodes, edges and simulation properties. Later
//! layers override earlier ones:
//! - defaults from later layers override defaults from earlier ones, and
//!   every node and edge starts from the defaults of all layers;
//! - a node of a name already present overlays its properties on the earlier
//!   node; a node marked `remove` deletes the node and the edges touching it;
//! - edges accumulate, one per (from, to) pair, a later one replacing an
//!   earlier one; an edge marked `remove` deletes that edge;
//! - whether every edge joins two existing nodes is checked on the final
//!   merged model only.
//!
//! Property values are opaque here (`W`): the merge only moves them.
use vstd::prelude::*;
use crate::assoc::{
    assoc_map, distinct_keys, distinct_pair_keys, find_key, find_pair_key, lemma_assoc_dom,
    lemma_assoc_index, lemma_assoc_push, lemma_assoc_remove, lemma_assoc_update, lemma_distinct_push,
    lemma_pair_distinct_push, lemma_pair_dom, lemma_pair_index, lemma_pair_push, lemma_pair_remove,
    lemma_pair_update, pair_map, pkey,
};

verus! {

/// A node of a layer.
pub struct NodeLayer<W> {
    /// Node name (unique in the merged model).
    pub name: String,
    /// Whether this entry removes the node (and its edges).
    pub remove: bool,
    /// The properties given for the node.
    pub properties: Vec<(String, W)>,
}

/// An edge of a layer.
pub struct EdgeLayer<W> {
    /// Source node name.
    pub from: String,
    /// Destination node name.
    pub to: String,
    /// Whether this entry removes the edge.
    pub remove: bool,
    /// The properties given for the edge.
    pub properties: Vec<(String, W)>,
}

/// One layer of a model (one model file).
pub struct ModelLayer<W> {
    /// Node defaults of this layer.
    pub node_defaults: Vec<(String, W)>,
    /// Edge defaults of this layer.
    pub edge_defaults: Vec<(String, W)>,
    /// Node entries, in order.
    pub nodes: Vec<NodeLayer<W>>,
    /// Edge entries, in order.
    pub edges: Vec<EdgeLayer<W>>,
    /// Simulation properties of this layer, if any.
    pub simulation: Option<Vec<(String, W)>>,
}

/// The built-in defaults every model starts from.
pub struct ModelBase<W> {
    /// Built-in node properties.
    pub node: Vec<(String, W)>,
    /// Built-in edge properties.
    pub edge: Vec<(String, W)>,
    /// Built-in simulation properties.
    pub simulation: Vec<(String, W)>,
}

/// A merged model: nodes by name, edges by (from, to), and the simulation
/// properties, each property list with distinct names.
pub struct MergedModel<W> {
    /// The nodes and their properties.
    pub nodes: Vec<(String, Vec<(String, W)>)>,
    /// The edges and their properties.
    pub edges: Vec<((String, String), Vec<(String, W)>)>,
    /// The simulation properties.
    pub simulation: Vec<(String, W)>,
}

/// Why a model cannot be merged.
#[derive(Debug)]
pub enum ModelError {
    /// No layer was given.
    NoModels,
    /// A layer removes a node that is not there.
    NodeNotFound(String),
    /// A layer removes an edge that is not there, or an edge of the merged
    /// model names a node that is not there.
    InvalidEdge {
        /// Source node name.
        from: String,
        /// Destination node name.
        to: String,
    },
}

/// Properties overlaid: those of the list win over those of the map.
pub open spec fn overlay<W>(m: Map<Seq<char>, W>, s: Seq<(String, W)>) -> Map<Seq<char>, W> {
    m.union_prefer_right(assoc_map(s))
}

/// The nodes of a node list: name to properties.
pub open spec fn node_view<W>(s: Seq<(String, Vec<(String, W)>)>) -> Map<Seq<char>, Map<Seq<char>, W>> {
    Map::new(|k: Seq<char>| assoc_map(s).dom().contains(k), |k: Seq<char>| assoc_map(assoc_map(s)[k]@))
}

/// The edges of an edge list: (from, to) to properties.
pub open spec fn edge_view<W>(s: Seq<((String, String), Vec<(String, W)>)>) -> Map<
    (Seq<char>, Seq<char>),
    Map<Seq<char>, W>,
> {
    Map::new(
        |k: (Seq<char>, Seq<char>)| pair_map(s).dom().contains(k),
        |k: (Seq<char>, Seq<char>)| assoc_map(pair_map(s)[k]@),
    )
}

/// The edges that do not touch a node.
pub open spec fn without_node<W>(em: Map<(Seq<char>, Seq<char>), Map<Seq<char>, W>>, n: Seq<char>) -> Map<
    (Seq<char>, Seq<char>),
    Map<Seq<char>, W>,
> {
    Map::new(
        |k: (Seq<char>, Seq<char>)| em.dom().contains(k) && k.0 != n && k.1 != n,
        |k: (Seq<char>, Seq<char>)| em[k],
    )
}

/// The node defaults after the given layers.
pub open spec fn node_defaults_of<W>(base: Seq<(String, W)>, layers: Seq<ModelLayer<W>>) -> Map<Seq<char>, W>
    decreases layers.len(),
{
    if layers.len() == 0 {
        assoc_map(base)
    } else {
        overlay(node_defaults_of(base, layers.drop_last()), layers.last().node_defaults@)
    }
}

/// The edge defaults after the given layers.
pub open spec fn edge_defaults_of<W>(base: Seq<(String, W)>, layers: Seq<ModelLayer<W>>) -> Map<Seq<char>, W>
    decreases layers.len(),
{
    if layers.len() == 0 {
        assoc_map(base)
    } else {
        overlay(edge_defaults_of(base, layers.drop_last()), layers.last().edge_defaults@)
    }
}

/// The state of a merge: nodes, edges, simulation properties, and the
/// failure that stopped it, if any (`true` with a node name for a missing
/// node, `false` with an edge's ends for a missing edge).
pub type MergeState<W> = (
    Map<Seq<char>, Map<Seq<char>, W>>,
    Map<(Seq<char>, Seq<char>), Map<Seq<char>, W>>,
    Map<Seq<char>, W>,
    Option<(bool, Seq<char>, Seq<char>)>,
);

/// One node entry applied.
pub open spec fn node_step<W>(st: MergeState<W>, nd: Map<Seq<char>, W>, n: NodeLayer<W>) -> MergeState<W> {
    if st.3 is Some {
        st
    } else if n.remove {
        if !st.0.contains_key(n.name@) {
            (st.0, st.1, st.2, Some((true, n.name@, Seq::empty())))
        } else {
            (st.0.remove(n.name@), without_node(st.1, n.name@), st.2, None)
        }
    } else if st.0.contains_key(n.name@) {
        (st.0.insert(n.name@, overlay(st.0[n.name@], n.properties@)), st.1, st.2, None)
    } else {
        (st.0.insert(n.name@, overlay(nd, n.properties@)), st.1, st.2, None)
    }
}

/// One edge entry applied.
pub open spec fn edge_step<W>(st: MergeState<W>, ed: Map<Seq<char>, W>, e: EdgeLayer<W>) -> MergeState<W> {
    if st.3 is Some {
        st
    } else if e.remove {
        if !st.1.contains_key((e.from@, e.to@)) {
            (st.0, st.1, st.2, Some((false, e.from@, e.to@)))
        } else {
            (st.0, st.1.remove((e.from@, e.to@)), st.2, None)
        }
    } else {
        (st.0, st.1.insert((e.from@, e.to@), overlay(ed, e.properties@)), st.2, None)
    }
}

/// Node entries applied in order.
pub open spec fn nodes_fold<W>(st: MergeState<W>, nd: Map<Seq<char>, W>, ns: Seq<NodeLayer<W>>) -> MergeState<W>
    decreases ns.len(),
{
    if ns.len() == 0 {
        st
    } else {
        nodes_fold(node_step(st, nd, ns[0]), nd, ns.drop_first())
    }
}

/// Edge entries applied in order.
pub open spec fn edges_fold<W>(st: MergeState<W>, ed: Map<Seq<char>, W>, es: Seq<EdgeLayer<W>>) -> MergeState<W>
    decreases es.len(),
{
    if es.len() == 0 {
        st
    } else {
        edges_fold(edge_step(st, ed, es[0]), ed, es.drop_first())
    }
}

/// One layer applied: its nodes, then its edges, then its simulation
/// properties.
pub open spec fn layer_step<W>(
    st: MergeState<W>,
    nd: Map<Seq<char>, W>,
    ed: Map<Seq<char>, W>,
    l: ModelLayer<W>,
) -> MergeState<W> {
    let b = edges_fold(nodes_fold(st, nd, l.nodes@), ed, l.edges@);
    if b.3 is Some {
        b
    } else {
        match l.simulation {
            Some(sp) => (b.0, b.1, overlay(b.2, sp@), None),
            None => b,
        }
    }
}

/// Layers applied in order.
pub open spec fn layers_fold<W>(
    st: MergeState<W>,
    nd: Map<Seq<char>, W>,
    ed: Map<Seq<char>, W>,
    ls: Seq<ModelLayer<W>>,
) -> MergeState<W>
    decreases ls.len(),
{
    if ls.len() == 0 {
        st
    } else {
        layers_fold(layer_step(st, nd, ed, ls[0]), nd, ed, ls.drop_first())
    }
}

/// The state after merging all layers onto the built-in defaults.
pub open spec fn merged_state<W>(base: ModelBase<W>, layers: Seq<ModelLayer<W>>) -> MergeState<W> {
    layers_fold(
        (Map::empty(), Map::empty(), assoc_map(base.simulation@), None),
        node_defaults_of(base.node@, layers),
        edge_defaults_of(base.edge@, layers),
        layers,
    )
}

/// Whether an edge joins two nodes of the state.
pub open spec fn edge_ok<W>(st: MergeState<W>, k: (Seq<char>, Seq<char>)) -> bool {
    st.0.contains_key(k.0) && st.0.contains_key(k.1)
}

/// A property list with distinct names.
pub open spec fn props_wf<W>(s: Seq<(String, W)>) -> bool {
    distinct_keys(s)
}

/// A node list with distinct names and property lists with distinct names.
pub open spec fn nodes_wf<W>(s: Seq<(String, Vec<(String, W)>)>) -> bool {
    distinct_keys(s) && forall|i: int| 0 <= i < s.len() ==> distinct_keys(#[trigger] s[i].1@)
}

/// An edge list with distinct ends and property lists with distinct names.
pub open spec fn edges_wf<W>(s: Seq<((String, String), Vec<(String, W)>)>) -> bool {
    distinct_pair_keys(s) && forall|i: int| 0 <= i < s.len() ==> distinct_keys(#[trigger] s[i].1@)
}

// ----------------------------------------------------------------------------
// Proofs about the folds and views
// ----------------------------------------------------------------------------

proof fn lemma_failed_stays<W>(st: MergeState<W>, nd: Map<Seq<char>, W>, ed: Map<Seq<char>, W>, ls: Seq<ModelLayer<W>>)
    requires
        st.3 is Some,
    ensures
        layers_fold(st, nd, ed, ls) == st,
    decreases ls.len(),
{
    if ls.len() > 0 {
        lemma_nodes_failed(st, nd, ls[0].nodes@);
        lemma_edges_failed(st, ed, ls[0].edges@);
        lemma_failed_stays(st, nd, ed, ls.drop_first());
    }
}

proof fn lemma_nodes_failed<W>(st: MergeState<W>, nd: Map<Seq<char>, W>, ns: Seq<NodeLayer<W>>)
    requires
        st.3 is Some,
    ensures
        nodes_fold(st, nd, ns) == st,
    decreases ns.len(),
{
    if ns.len() > 0 {
        lemma_nodes_failed(st, nd, ns.drop_first());
    }
}

proof fn lemma_edges_failed<W>(st: MergeState<W>, ed: Map<Seq<char>, W>, es: Seq<EdgeLayer<W>>)
    requires
        st.3 is Some,
    ensures
        edges_fold(st, ed, es) == st,
    decreases es.len(),
{
    if es.len() > 0 {
        lemma_edges_failed(st, ed, es.drop_first());
    }
}

proof fn lemma_node_view_push<W>(s: Seq<(String, Vec<(String, W)>)>, e: (String, Vec<(String, W)>))
    ensures
        node_view(s.push(e)) == node_view(s).insert(e.0@, assoc_map(e.1@)),
{
    lemma_assoc_push(s, e);
    assert(node_view(s.push(e)) =~= node_view(s).insert(e.0@, assoc_map(e.1@)));
}

proof fn lemma_node_view_update<W>(s: Seq<(String, Vec<(String, W)>)>, i: int, e: (String, Vec<(String, W)>))
    requires
        distinct_keys(s),
        0 <= i < s.len(),
        e.0@ == s[i].0@,
    ensures
        distinct_keys(s.update(i, e)),
        node_view(s.update(i, e)) == node_view(s).insert(e.0@, assoc_map(e.1@)),
{
    lemma_assoc_update(s, i, e);
    assert(node_view(s.update(i, e)) =~= node_view(s).insert(e.0@, assoc_map(e.1@)));
}

proof fn lemma_node_view_remove<W>(s: Seq<(String, Vec<(String, W)>)>, i: int)
    requires
        distinct_keys(s),
        0 <= i < s.len(),
    ensures
        distinct_keys(s.remove(i)),
        node_view(s.remove(i)) == node_view(s).remove(s[i].0@),
{
    lemma_assoc_remove(s, i);
    assert(node_view(s.remove(i)) =~= node_view(s).remove(s[i].0@));
}

proof fn lemma_edge_view_push<W>(s: Seq<((String, String), Vec<(String, W)>)>, e: ((String, String), Vec<(String, W)>))
    ensures
        edge_view(s.push(e)) == edge_view(s).insert(pkey(e), assoc_map(e.1@)),
{
    lemma_pair_push(s, e);
    assert(edge_view(s.push(e)) =~= edge_view(s).insert(pkey(e), assoc_map(e.1@)));
}

proof fn lemma_edge_view_update<W>(
    s: Seq<((String, String), Vec<(String, W)>)>,
    i: int,
    e: ((String, String), Vec<(String, W)>),
)
    requires
        distinct_pair_keys(s),
        0 <= i < s.len(),
        pkey(e) == pkey(s[i]),
    ensures
        distinct_pair_keys(s.update(i, e)),
        edge_view(s.update(i, e)) == edge_view(s).insert(pkey(e), assoc_map(e.1@)),
{
    lemma_pair_update(s, i, e);
    assert(edge_view(s.update(i, e)) =~= edge_view(s).insert(pkey(e), assoc_map(e.1@)));
}

proof fn lemma_edge_view_remove<W>(s: Seq<((String, String), Vec<(String, W)>)>, i: int)
    requires
        distinct_pair_keys(s),
        0 <= i < s.len(),
    ensures
        distinct_pair_keys(s.remove(i)),
        edge_view(s.remove(i)) == edge_view(s).remove(pkey(s[i])),
{
    lemma_pair_remove(s, i);
    assert(edge_view(s.remove(i)) =~= edge_view(s).remove(pkey(s[i])));
}

// ----------------------------------------------------------------------------
// Property lists
// ----------------------------------------------------------------------------

/// Overlay a property list onto another, in place.
fn overlay_into<W: Copy>(props: &mut Vec<(String, W)>, over: &Vec<(String, W)>)
    requires
        distinct_keys(old(props)@),
    ensures
        distinct_keys(final(props)@),
        assoc_map(final(props)@) == overlay(assoc_map(old(props)@), over@),
{
    let ghost m0 = assoc_map(props@);
    let mut i: usize = 0;
    while i < over.len()
        invariant
            i <= over@.len(),
            distinct_keys(props@),
            assoc_map(props@) == m0.union_prefer_right(assoc_map(over@.take(i as int))),
        decreases over@.len() - i,
    {
        let k = over[i].0.clone();
        let v: W = over[i].1;
        let ghost before = props@;
        match find_key(props, &k) {
            Some(j) => {
                proof {
                    lemma_assoc_update(before, j as int, (k, v));
                }
                props.set(j, (k, v));
            },
            None => {
                proof {
                    lemma_distinct_push(before, (k, v));
                    lemma_assoc_push(before, (k, v));
                }
                props.push((k, v));
            },
        }
        proof {
            assert(over@.take(i + 1).drop_last() =~= over@.take(i as int));
            assert(over@.take(i + 1).last() == over@[i as int]);
            assert(assoc_map(over@.take(i + 1)) == assoc_map(over@.take(i as int)).insert(k@, v));
            assert(assoc_map(props@) =~= m0.union_prefer_right(assoc_map(over@.take(i + 1))));
        }
        i = i + 1;
    }
    assert(over@.take(over@.len() as int) =~= over@);
}

/// A property list with the same properties and distinct names.
fn copy_props<W: Copy>(p: &Vec<(String, W)>) -> (r: Vec<(String, W)>)
    ensures
        distinct_keys(r@),
        assoc_map(r@) == assoc_map(p@),
{
    let mut r: Vec<(String, W)> = Vec::new();
    overlay_into(&mut r, p);
    assert(assoc_map(r@) =~= assoc_map(p@));
    r
}

// ----------------------------------------------------------------------------
// Entries
// ----------------------------------------------------------------------------

/// The edges that do not touch a node.
fn prune_edges<W: Copy>(edges: &Vec<((String, String), Vec<(String, W)>)>, name: &String) -> (r: Vec<
    ((String, String), Vec<(String, W)>),
>)
    requires
        edges_wf(edges@),
    ensures
        edges_wf(r@),
        edge_view(r@) == without_node(edge_view(edges@), name@),
{
    let mut r: Vec<((String, String), Vec<(String, W)>)> = Vec::new();
    let mut i: usize = 0;
    assert(edge_view(r@) =~= without_node(edge_view(edges@.take(0)), name@));
    while i < edges.len()
        invariant
            i <= edges@.len(),
            edges_wf(edges@),
            edges_wf(r@),
            edge_view(r@) == without_node(edge_view(edges@.take(i as int)), name@),
            forall|k: (Seq<char>, Seq<char>)| #[trigger]
                pair_map(r@).dom().contains(k) ==> pair_map(edges@.take(i as int)).dom().contains(k),
        decreases edges@.len() - i,
    {
        let ghost t = edges@.take(i as int);
        let ghost e = edges@[i as int];
        proof {
            assert(edges@.take(i + 1) =~= t.push(e));
            lemma_edge_view_push(t, e);
            lemma_pair_push(t, e);
            lemma_pair_dom(t, pkey(e));
            if pair_map(t).dom().contains(pkey(e)) {
                let j = choose|j: int| 0 <= j < t.len() && #[trigger] pkey(t[j]) == pkey(e);
                assert(t[j] == edges@[j]);
            }
        }
        if edges[i].0.0 != *name && edges[i].0.1 != *name {
            let a = edges[i].0.0.clone();
            let b = edges[i].0.1.clone();
            let props = copy_props(&edges[i].1);
            let ghost before = r@;
            let entry = ((a, b), props);
            proof {
                lemma_pair_distinct_push(before, entry);
                lemma_edge_view_push(before, entry);
                lemma_pair_push(before, entry);
                assert forall|j: int| 0 <= j < before.len() + 1 implies distinct_keys(
                    #[trigger] before.push(entry)[j].1@,
                ) by {
                    if j < before.len() {
                        assert(before.push(entry)[j] == before[j]);
                    }
                }
            }
            r.push(entry);
            proof {
                assert(edge_view(r@) =~= without_node(edge_view(edges@.take(i + 1)), name@));
            }
        } else {
            proof {
                assert(edge_view(r@) =~= without_node(edge_view(edges@.take(i + 1)), name@));
            }
        }
        i = i + 1;
    }
    assert(edges@.take(edges@.len() as int) =~= edges@);
    r
}

/// Apply one node entry.
fn apply_node<W: Copy>(
    nodes: &mut Vec<(String, Vec<(String, W)>)>,
    edges: &mut Vec<((String, String), Vec<(String, W)>)>,
    nd: &Vec<(String, W)>,
    n: &NodeLayer<W>,
) -> (r: Result<(), ModelError>)
    requires
        nodes_wf(old(nodes)@),
        edges_wf(old(edges)@),
    ensures
        nodes_wf(final(nodes)@),
        edges_wf(final(edges)@),
        ({
            let st = (node_view(old(nodes)@), edge_view(old(edges)@), Map::<Seq<char>, W>::empty(), None);
            let st2 = node_step(st, assoc_map(nd@), *n);
            match r {
                Ok(()) => st2.3 is None && node_view(final(nodes)@) == st2.0 && edge_view(final(edges)@)
                    == st2.1,
                Err(e) => st2.3 == Some((true, n.name@, Seq::<char>::empty())) && (e matches ModelError::NodeNotFound(x) && x@ == n.name@),
            }
        }),
{
    let ghost nv = node_view(nodes@);
    let found = find_key(nodes, &n.name);
    proof {
        lemma_assoc_dom(nodes@, n.name@);
        if let Some(j) = found {
            lemma_assoc_index(nodes@, j as int);
        }
    }
    if n.remove {
        match found {
            None => {
                return Err(ModelError::NodeNotFound(n.name.clone()));
            },
            Some(j) => {
                let ghost before = nodes@;
                nodes.remove(j);
                proof {
                    lemma_node_view_remove(before, j as int);
                    assert forall|i: int| 0 <= i < nodes@.len() implies distinct_keys(#[trigger] nodes@[i].1@) by {
                        let i2 = if i < j { i } else { i + 1 };
                        assert(nodes@[i] == before[i2]);
                    }
                }
                let pruned = prune_edges(edges, &n.name);
                *edges = pruned;
                Ok(())
            },
        }
    } else {
        match found {
            Some(j) => {
                let mut props = copy_props(&nodes[j].1);
                overlay_into(&mut props, &n.properties);
                let entry = (n.name.clone(), props);
                let ghost before = nodes@;
                proof {
                    lemma_node_view_update(before, j as int, entry);
                }
                nodes.set(j, entry);
                proof {
                    assert forall|i: int| 0 <= i < nodes@.len() implies distinct_keys(#[trigger] nodes@[i].1@) by {
                        if i != j {
                            assert(nodes@[i] == before[i]);
                        }
                    }
                }
                Ok(())
            },
            None => {
                let mut props = copy_props(nd);
                overlay_into(&mut props, &n.properties);
                let entry = (n.name.clone(), props);
                let ghost before = nodes@;
                proof {
                    lemma_distinct_push(before, entry);
                    lemma_node_view_push(before, entry);
                }
                nodes.push(entry);
                proof {
                    assert forall|i: int| 0 <= i < nodes@.len() implies distinct_keys(#[trigger] nodes@[i].1@) by {
                        if i < before.len() {
                            assert(nodes@[i] == before[i]);
                        }
                    }
                }
                Ok(())
            },
        }
    }
}

/// Apply one edge entry.
fn apply_edge<W: Copy>(
    edges: &mut Vec<((String, String), Vec<(String, W)>)>,
    ed: &Vec<(String, W)>,
    e: &EdgeLayer<W>,
) -> (r: Result<(), ModelError>)
    requires
        edges_wf(old(edges)@),
    ensures
        edges_wf(final(edges)@),
        ({
            let st = (
                Map::<Seq<char>, Map<Seq<char>, W>>::empty(),
                edge_view(old(edges)@),
                Map::<Seq<char>, W>::empty(),
                None,
            );
            let st2 = edge_step(st, assoc_map(ed@), *e);
            match r {
                Ok(()) => st2.3 is None && edge_view(final(edges)@) == st2.1,
                Err(x) => st2.3 == Some((false, e.from@, e.to@)) && (x matches ModelError::InvalidEdge { from, to } && from@ == e.from@ && to@ == e.to@),
            }
        }),
{
    let found = find_pair_key(edges, &e.from, &e.to);
    proof {
        lemma_pair_dom(edges@, (e.from@, e.to@));
        if let Some(j) = found {
            lemma_pair_index(edges@, j as int);
        }
    }
    if e.remove {
        match found {
            None => Err(ModelError::InvalidEdge { from: e.from.clone(), to: e.to.clone() }),
            Some(j) => {
                let ghost before = edges@;
                edges.remove(j);
                proof {
                    lemma_edge_view_remove(before, j as int);
                    assert forall|i: int| 0 <= i < edges@.len() implies distinct_keys(#[trigger] edges@[i].1@) by {
                        let i2 = if i < j { i } else { i + 1 };
                        assert(edges@[i] == before[i2]);
                    }
                }
                Ok(())
            },
        }
    } else {
        let mut props = copy_props(ed);
        overlay_into(&mut props, &e.properties);
        let entry = ((e.from.clone(), e.to.clone()), props);
        let ghost before = edges@;
        match found {
            Some(j) => {
                proof {
                    lemma_edge_view_update(before, j as int, entry);
                }
                edges.set(j, entry);
                proof {
                    assert forall|i: int| 0 <= i < edges@.len() implies distinct_keys(#[trigger] edges@[i].1@) by {
                        if i != j {
                            assert(edges@[i] == before[i]);
                        }
                    }
                }
            },
            None => {
                proof {
                    lemma_pair_distinct_push(before, entry);
                    lemma_edge_view_push(before, entry);
                }
                edges.push(entry);
                proof {
                    assert forall|i: int| 0 <= i < edges@.len() implies distinct_keys(#[trigger] edges@[i].1@) by {
                        if i < before.len() {
                            assert(edges@[i] == before[i]);
                        }
                    }
                }
            },
        }
        Ok(())
    }
}

/// The first edge that names a node which is not there, if any.
fn find_dangling_edge<W>(
    nodes: &Vec<(String, Vec<(String, W)>)>,
    edges: &Vec<((String, String), Vec<(String, W)>)>,
) -> (r: Option<usize>)
    ensures
        match r {
            Some(i) => i < edges@.len() && !(node_view(nodes@).contains_key(edges@[i as int].0.0@)
                && node_view(nodes@).contains_key(edges@[i as int].0.1@)),
            None => forall|i: int|
                0 <= i < edges@.len() ==> node_view(nodes@).contains_key(#[trigger] edges@[i].0.0@)
                    && node_view(nodes@).contains_key(edges@[i].0.1@),
        },
{
    let mut i: usize = 0;
    while i < edges.len()
        invariant
            i <= edges@.len(),
            forall|j: int|
                0 <= j < i ==> node_view(nodes@).contains_key(#[trigger] edges@[j].0.0@) && node_view(
                    nodes@,
                ).contains_key(edges@[j].0.1@),
        decreases edges@.len() - i,
    {
        let a = find_key(nodes, &edges[i].0.0);
        let b = find_key(nodes, &edges[i].0.1);
        proof {
            lemma_assoc_dom(nodes@, edges@[i as int].0.0@);
            lemma_assoc_dom(nodes@, edges@[i as int].0.1@);
            if let Some(ia) = a {
                assert(nodes@[ia as int].0@ == edges@[i as int].0.0@);
            }
            if let Some(ib) = b {
                assert(nodes@[ib as int].0@ == edges@[i as int].0.1@);
            }
        }
        if a.is_none() || b.is_none() {
            return Some(i);
        }
        assert(node_view(nodes@).contains_key(edges@[i as int].0.0@));
        assert(node_view(nodes@).contains_key(edges@[i as int].0.1@));
        assert forall|j: int| 0 <= j < i + 1 implies node_view(nodes@).contains_key(#[trigger] edges@[j].0.0@)
            && node_view(nodes@).contains_key(edges@[j].0.1@) by {
            if j < i {
                assert(node_view(nodes@).contains_key(edges@[j].0.0@));
            }
        }
        i = i + 1;
    }
    None
}

/// Merge the layers of a model onto the built-in defaults. Fails when no
/// layer is given, when a layer removes a node or an edge that is not
/// there (the first such entry), or when an edge of the merged model names
/// a node that is not there.
pub fn merge_layers<W: Copy>(base: &ModelBase<W>, layers: &Vec<ModelLayer<W>>) -> (r: Result<
    MergedModel<W>,
    ModelError,
>)
    ensures
        layers@.len() == 0 ==> r matches Err(ModelError::NoModels),
        layers@.len() > 0 ==> ({
            let st = merged_state(*base, layers@);
            match st.3 {
                Some((true, name, _)) => r matches Err(ModelError::NodeNotFound(x)) && x@ == name,
                Some((false, f, t)) => r matches Err(ModelError::InvalidEdge { from, to }) && from@ == f
                    && to@ == t,
                None => if exists|k: (Seq<char>, Seq<char>)| #[trigger]
                    st.1.contains_key(k) && !edge_ok(st, k) {
                    r matches Err(ModelError::InvalidEdge { from, to }) && st.1.contains_key(
                        (from@, to@),
                    ) && !edge_ok(st, (from@, to@))
                } else {
                    r matches Ok(m) && node_view(m.nodes@) == st.0 && edge_view(m.edges@) == st.1
                        && assoc_map(m.simulation@) == st.2 && nodes_wf(m.nodes@) && edges_wf(
                        m.edges@,
                    ) && props_wf(m.simulation@)
                },
            }
        }),
{
    if layers.len() == 0 {
        return Err(ModelError::NoModels);
    }
    // The defaults of all layers.
    let mut nd = copy_props(&base.node);
    let mut ed = copy_props(&base.edge);
    let mut li: usize = 0;
    while li < layers.len()
        invariant
            li <= layers@.len(),
            distinct_keys(nd@),
            distinct_keys(ed@),
            assoc_map(nd@) == node_defaults_of(base.node@, layers@.take(li as int)),
            assoc_map(ed@) == edge_defaults_of(base.edge@, layers@.take(li as int)),
        decreases layers@.len() - li,
    {
        overlay_into(&mut nd, &layers[li].node_defaults);
        overlay_into(&mut ed, &layers[li].edge_defaults);
        proof {
            assert(layers@.take(li + 1).drop_last() =~= layers@.take(li as int));
        }
        li = li + 1;
    }
    assert(layers@.take(layers@.len() as int) =~= layers@);
    let ghost ndm = assoc_map(nd@);
    let ghost edm = assoc_map(ed@);
    let ghost target = merged_state(*base, layers@);
    let mut nodes: Vec<(String, Vec<(String, W)>)> = Vec::new();
    let mut edges: Vec<((String, String), Vec<(String, W)>)> = Vec::new();
    let mut sim = copy_props(&base.simulation);
    assert(node_view(nodes@) =~= Map::empty());
    assert(edge_view(edges@) =~= Map::empty());
    assert(layers@.skip(0) =~= layers@);
    let mut li: usize = 0;
    while li < layers.len()
        invariant
            li <= layers@.len(),
            ndm == assoc_map(nd@),
            edm == assoc_map(ed@),
            ndm == node_defaults_of(base.node@, layers@),
            edm == edge_defaults_of(base.edge@, layers@),
            target == merged_state(*base, layers@),
            nodes_wf(nodes@),
            edges_wf(edges@),
            distinct_keys(sim@),
            layers_fold(
                (node_view(nodes@), edge_view(edges@), assoc_map(sim@), None),
                ndm,
                edm,
                layers@.skip(li as int),
            ) == target,
        decreases layers@.len() - li,
    {
        let layer = &layers[li];
        let ghost start: MergeState<W> = (node_view(nodes@), edge_view(edges@), assoc_map(sim@), None);
        proof {
            assert(layers@.skip(li as int).drop_first() =~= layers@.skip(li + 1));
            assert(layers@.skip(li as int)[0] == layers@[li as int]);
        }
        let ghost after_nodes = nodes_fold(start, ndm, layer.nodes@);
        assert(layer.nodes@.skip(0) =~= layer.nodes@);
        let mut ni: usize = 0;
        while ni < layer.nodes.len()
            invariant
                ni <= layer.nodes@.len(),
                li < layers@.len(),
                *layer == layers@[li as int],
                ndm == node_defaults_of(base.node@, layers@),
                edm == edge_defaults_of(base.edge@, layers@),
                edm == assoc_map(ed@),
                target == merged_state(*base, layers@),
                layers_fold(start, ndm, edm, layers@.skip(li as int)) == target,
                layers_fold(layer_step(start, ndm, edm, layers@[li as int]), ndm, edm, layers@.skip(li + 1)) == target,
                distinct_keys(sim@),
                start.3 is None,
                after_nodes == nodes_fold(start, ndm, layer.nodes@),
                assoc_map(sim@) == start.2,
                nodes_wf(nodes@),
                edges_wf(edges@),
                ndm == assoc_map(nd@),
                nodes_fold(
                    (node_view(nodes@), edge_view(edges@), assoc_map(sim@), None),
                    ndm,
                    layer.nodes@.skip(ni as int),
                ) == after_nodes,
            decreases layer.nodes@.len() - ni,
        {
            let ghost cur: MergeState<W> = (node_view(nodes@), edge_view(edges@), assoc_map(sim@), None);
            proof {
                assert(layer.nodes@.skip(ni as int).drop_first() =~= layer.nodes@.skip(ni + 1));
                assert(layer.nodes@.skip(ni as int)[0] == layer.nodes@[ni as int]);
            }
            match apply_node(&mut nodes, &mut edges, &nd, &layer.nodes[ni]) {
                Ok(()) => {},
                Err(err) => {
                    proof {
                        let failed = node_step(cur, ndm, layer.nodes@[ni as int]);
                        lemma_nodes_failed(failed, ndm, layer.nodes@.skip(ni + 1));
                        lemma_edges_failed(failed, edm, layer.edges@);
                        lemma_failed_stays(failed, ndm, edm, layers@.skip(li + 1));
                    }
                    return Err(err);
                },
            }
            ni = ni + 1;
        }
        assert(layer.nodes@.skip(layer.nodes@.len() as int) =~= Seq::<NodeLayer<W>>::empty());
        let ghost after_edges = edges_fold(after_nodes, edm, layer.edges@);
        assert(layer.edges@.skip(0) =~= layer.edges@);
        let mut ei: usize = 0;
        while ei < layer.edges.len()
            invariant
                ei <= layer.edges@.len(),
                li < layers@.len(),
                *layer == layers@[li as int],
                ndm == node_defaults_of(base.node@, layers@),
                edm == edge_defaults_of(base.edge@, layers@),
                edm == assoc_map(ed@),
                target == merged_state(*base, layers@),
                layers_fold(start, ndm, edm, layers@.skip(li as int)) == target,
                layers_fold(layer_step(start, ndm, edm, layers@[li as int]), ndm, edm, layers@.skip(li + 1)) == target,
                distinct_keys(sim@),
                start.3 is None,
                ndm == assoc_map(nd@),
                after_nodes == nodes_fold(start, ndm, layer.nodes@),
                after_edges == edges_fold(after_nodes, edm, layer.edges@),
                after_nodes.3 is None,
                after_nodes.2 == start.2,
                assoc_map(sim@) == start.2,
                nodes_wf(nodes@),
                edges_wf(edges@),
                edm == assoc_map(ed@),
                edges_fold(
                    (node_view(nodes@), edge_view(edges@), assoc_map(sim@), None),
                    edm,
                    layer.edges@.skip(ei as int),
                ) == after_edges,
            decreases layer.edges@.len() - ei,
        {
            let ghost cur: MergeState<W> = (node_view(nodes@), edge_view(edges@), assoc_map(sim@), None);
            proof {
                assert(layer.edges@.skip(ei as int).drop_first() =~= layer.edges@.skip(ei + 1));
                assert(layer.edges@.skip(ei as int)[0] == layer.edges@[ei as int]);
            }
            match apply_edge(&mut edges, &ed, &layer.edges[ei]) {
                Ok(()) => {},
                Err(err) => {
                    proof {
                        let failed = edge_step(cur, edm, layer.edges@[ei as int]);
                        lemma_edges_failed(failed, edm, layer.edges@.skip(ei + 1));
                        lemma_failed_stays(failed, ndm, edm, layers@.skip(li + 1));
                    }
                    return Err(err);
                },
            }
            ei = ei + 1;
        }
        assert(layer.edges@.skip(layer.edges@.len() as int) =~= Seq::<EdgeLayer<W>>::empty());
        match &layer.simulation {
            Some(sp) => {
                overlay_into(&mut sim, sp);
            },
            None => {},
        }
        li = li + 1;
    }
    assert(layers@.skip(layers@.len() as int) =~= Seq::<ModelLayer<W>>::empty());
    assert(target == (node_view(nodes@), edge_view(edges@), assoc_map(sim@), None::<(bool, Seq<char>, Seq<char>)>));
    match find_dangling_edge(&nodes, &edges) {
        Some(i) => {
            proof {
                lemma_pair_index(edges@, i as int);
                assert(target.1.contains_key(pkey(edges@[i as int])));
                assert(!edge_ok(target, pkey(edges@[i as int])));
            }
            Err(ModelError::InvalidEdge { from: edges[i].0.0.clone(), to: edges[i].0.1.clone() })
        },
        None => {
            proof {
                assert forall|k: (Seq<char>, Seq<char>)| #[trigger] target.1.contains_key(k) implies edge_ok(
                    target,
                    k,
                ) by {
                    lemma_pair_dom(edges@, k);
                    let j = choose|j: int| 0 <= j < edges@.len() && #[trigger] pkey(edges@[j]) == k;
                    assert(node_view(nodes@).contains_key(edges@[j].0.0@));
                }
            }
            Ok(MergedModel { nodes, edges, simulation: sim })
        },
    }
}

proof fn lemma_nodes_fold_push<W>(st: MergeState<W>, nd: Map<Seq<char>, W>, ns: Seq<NodeLayer<W>>, x: NodeLayer<W>)
    ensures
        nodes_fold(st, nd, ns.push(x)) == node_step(nodes_fold(st, nd, ns), nd, x),
    decreases ns.len(),
{
    if ns.len() == 0 {
        assert(ns.push(x).drop_first() =~= Seq::<NodeLayer<W>>::empty());
        assert(ns.push(x)[0] == x);
        assert(nodes_fold(node_step(st, nd, x), nd, Seq::<NodeLayer<W>>::empty()) == node_step(st, nd, x));
        assert(nodes_fold(st, nd, ns) == st);
    } else {
        assert(ns.push(x)[0] == ns[0]);
        assert(ns.push(x).drop_first() =~= ns.drop_first().push(x));
        lemma_nodes_fold_push(node_step(st, nd, ns[0]), nd, ns.drop_first(), x);
    }
}

/// A node entry that does not remove its node, for a node already present,
/// keeps every property the node had and the entry does not set: the
/// node's properties become its previous properties overlaid with the
/// entry's, and no other node changes.
pub proof fn lemma_entry_overlays_existing_node<W>(
    st: MergeState<W>,
    nd: Map<Seq<char>, W>,
    ns: Seq<NodeLayer<W>>,
    i: int,
)
    requires
        0 <= i < ns.len(),
        !ns[i].remove,
        nodes_fold(st, nd, ns.take(i)).3 is None,
        nodes_fold(st, nd, ns.take(i)).0.contains_key(ns[i].name@),
    ensures
        ({
            let before = nodes_fold(st, nd, ns.take(i)).0;
            let after = nodes_fold(st, nd, ns.take(i + 1));
            let name = ns[i].name@;
            &&& after.3 is None
            &&& after.0.dom() == before.dom()
            &&& after.0[name] == before[name].union_prefer_right(assoc_map(ns[i].properties@))
            &&& forall|k: Seq<char>|
                #![trigger after.0[name][k]]
                before[name].contains_key(k) && !assoc_map(ns[i].properties@).contains_key(k) ==> after.0[name][k]
                    == before[name][k]
            &&& forall|m: Seq<char>| before.contains_key(m) && m != name ==> #[trigger] after.0[m] == before[m]
        }),
{
    assert(ns.take(i + 1) =~= ns.take(i).push(ns[i]));
    lemma_nodes_fold_push(st, nd, ns.take(i), ns[i]);
    let before = nodes_fold(st, nd, ns.take(i)).0;
    let after = nodes_fold(st, nd, ns.take(i + 1));
    assert(after.0.dom() =~= before.dom());
}

/// Merging two layers that each give the same node, without removing it:
/// the node starts from the node defaults (of all layers), takes the first
/// layer's properties, then the second's, so every property the first layer
/// sets and the second does not keeps the first layer's value.
pub proof fn lemma_later_layer_overlays_node<W>(base: ModelBase<W>, layers: Seq<ModelLayer<W>>)
    requires
        layers.len() == 2,
        layers[0].nodes@.len() == 1,
        layers[1].nodes@.len() == 1,
        layers[0].nodes@[0].name@ == layers[1].nodes@[0].name@,
        !layers[0].nodes@[0].remove,
        !layers[1].nodes@[0].remove,
        layers[0].edges@.len() == 0,
        layers[1].edges@.len() == 0,
    ensures
        ({
            let st = merged_state(base, layers);
            let name = layers[0].nodes@[0].name@;
            let p1 = assoc_map(layers[0].nodes@[0].properties@);
            let p2 = assoc_map(layers[1].nodes@[0].properties@);
            let nd = node_defaults_of(base.node@, layers);
            &&& st.3 is None
            &&& st.0.dom() == set![name]
            &&& st.0[name] == nd.union_prefer_right(p1).union_prefer_right(p2)
            &&& forall|k: Seq<char>| #![trigger st.0[name][k]] p1.contains_key(k) && !p2.contains_key(k) ==> st.0[name][k] == p1[k]
            &&& forall|k: Seq<char>| #![trigger st.0[name][k]] p2.contains_key(k) ==> st.0[name][k] == p2[k]
        }),
{
    let nd = node_defaults_of(base.node@, layers);
    let ed = edge_defaults_of(base.edge@, layers);
    let st0: MergeState<W> = (Map::empty(), Map::empty(), assoc_map(base.simulation@), None);
    let l0 = layers[0];
    let l1 = layers[1];
    let n0 = l0.nodes@[0];
    let n1 = l1.nodes@[0];
    let name = n0.name@;
    assert(l0.nodes@.drop_first() =~= Seq::<NodeLayer<W>>::empty());
    assert(l1.nodes@.drop_first() =~= Seq::<NodeLayer<W>>::empty());
    let a = nodes_fold(st0, nd, l0.nodes@);
    assert(nodes_fold(node_step(st0, nd, n0), nd, Seq::<NodeLayer<W>>::empty()) == node_step(st0, nd, n0));
    assert(a == node_step(st0, nd, n0));
    assert(a.0 == Map::<Seq<char>, Map<Seq<char>, W>>::empty().insert(name, overlay(nd, n0.properties@)));
    assert(edges_fold(a, ed, l0.edges@) == a);
    let s1 = layer_step(st0, nd, ed, l0);
    assert(s1.0 == a.0 && s1.3 is None);
    assert(layers.drop_first()[0] == l1);
    assert(layers.drop_first().drop_first() =~= Seq::<ModelLayer<W>>::empty());
    let b = nodes_fold(s1, nd, l1.nodes@);
    assert(nodes_fold(node_step(s1, nd, n1), nd, Seq::<NodeLayer<W>>::empty()) == node_step(s1, nd, n1));
    assert(b == node_step(s1, nd, n1));
    assert(s1.0.contains_key(n1.name@));
    assert(edges_fold(b, ed, l1.edges@) == b);
    let s2 = layer_step(s1, nd, ed, l1);
    assert(s2.0 == b.0 && s2.3 is None);
    assert(layers_fold(s1, nd, ed, layers.drop_first()) == layers_fold(s2, nd, ed, layers.drop_first().drop_first()));
    assert(merged_state(base, layers) == s2);
    assert(s2.0.dom() =~= set![name]);
}

proof fn lemma_edges_fold_push<W>(st: MergeState<W>, ed: Map<Seq<char>, W>, es: Seq<EdgeLayer<W>>, x: EdgeLayer<W>)
    ensures
        edges_fold(st, ed, es.push(x)) == edge_step(edges_fold(st, ed, es), ed, x),
    decreases es.len(),
{
    if es.len() == 0 {
        assert(es.push(x).drop_first() =~= Seq::<EdgeLayer<W>>::empty());
        assert(es.push(x)[0] == x);
        assert(edges_fold(edge_step(st, ed, x), ed, Seq::<EdgeLayer<W>>::empty()) == edge_step(st, ed, x));
        assert(edges_fold(st, ed, es) == st);
    } else {
        assert(es.push(x)[0] == es[0]);
        assert(es.push(x).drop_first() =~= es.drop_first().push(x));
        lemma_edges_fold_push(edge_step(st, ed, es[0]), ed, es.drop_first(), x);
    }
}

/// The other node entries of a layer: a new node starts from the node
/// defaults overlaid with the entry's properties; removing a node deletes
/// it and every edge that touches it, and leaves the other edges as they
/// were; removing a node that is not there stops the merge with that
/// node's name.
pub proof fn lemma_node_entry_effects<W>(st: MergeState<W>, nd: Map<Seq<char>, W>, ns: Seq<NodeLayer<W>>, i: int)
    requires
        0 <= i < ns.len(),
        nodes_fold(st, nd, ns.take(i)).3 is None,
    ensures
        ({
            let before = nodes_fold(st, nd, ns.take(i));
            let after = nodes_fold(st, nd, ns.take(i + 1));
            let name = ns[i].name@;
            &&& !ns[i].remove && !before.0.contains_key(name) ==> after.3 is None && after.0 == before.0.insert(
                name,
                nd.union_prefer_right(assoc_map(ns[i].properties@)),
            ) && after.1 == before.1
            &&& ns[i].remove && before.0.contains_key(name) ==> after.3 is None && after.0 == before.0.remove(name)
                && (forall|k: (Seq<char>, Seq<char>)|
                #![trigger after.1.contains_key(k)]
                after.1.contains_key(k) <==> (before.1.contains_key(k) && k.0 != name && k.1 != name)) && (forall|
                k: (Seq<char>, Seq<char>),
            |
                #![trigger after.1[k]]
                after.1.contains_key(k) ==> after.1[k] == before.1[k])
            &&& ns[i].remove && !before.0.contains_key(name) ==> after.3 == Some((true, name, Seq::<char>::empty()))
        }),
{
    assert(ns.take(i + 1) =~= ns.take(i).push(ns[i]));
    lemma_nodes_fold_push(st, nd, ns.take(i), ns[i]);
}

/// The edge entries of a layer: an edge that does not remove replaces any
/// earlier edge between the same ends, starting from the edge defaults
/// overlaid with its properties; removing an edge deletes it; removing an
/// edge that is not there stops the merge with its ends. Nodes never
/// change.
pub proof fn lemma_edge_entry_effects<W>(st: MergeState<W>, ed: Map<Seq<char>, W>, es: Seq<EdgeLayer<W>>, i: int)
    requires
        0 <= i < es.len(),
        edges_fold(st, ed, es.take(i)).3 is None,
    ensures
        ({
            let before = edges_fold(st, ed, es.take(i));
            let after = edges_fold(st, ed, es.take(i + 1));
            let k = (es[i].from@, es[i].to@);
            &&& after.0 == before.0
            &&& !es[i].remove ==> after.3 is None && after.1 == before.1.insert(
                k,
                ed.union_prefer_right(assoc_map(es[i].properties@)),
            )
            &&& es[i].remove && before.1.contains_key(k) ==> after.3 is None && after.1 == before.1.remove(k)
            &&& es[i].remove && !before.1.contains_key(k) ==> after.3 == Some((false, k.0, k.1))
        }),
{
    assert(es.take(i + 1) =~= es.take(i).push(es[i]));
    lemma_edges_fold_push(st, ed, es.take(i), es[i]);
}

} // verus!

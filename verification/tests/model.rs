use mcsim::model::{merge_layers, EdgeLayer, MergedModel, ModelBase, ModelError, ModelLayer, NodeLayer};

fn props(p: &[(&str, u32)]) -> Vec<(String, u32)> {
    p.iter().map(|(k, v)| (k.to_string(), *v)).collect()
}

fn node(name: &str, p: &[(&str, u32)]) -> NodeLayer<u32> {
    NodeLayer { name: name.to_string(), remove: false, properties: props(p) }
}

fn remove_node(name: &str) -> NodeLayer<u32> {
    NodeLayer { name: name.to_string(), remove: true, properties: vec![] }
}

fn edge(from: &str, to: &str, p: &[(&str, u32)]) -> EdgeLayer<u32> {
    EdgeLayer { from: from.to_string(), to: to.to_string(), remove: false, properties: props(p) }
}

fn layer(nd: &[(&str, u32)], nodes: Vec<NodeLayer<u32>>, edges: Vec<EdgeLayer<u32>>) -> ModelLayer<u32> {
    ModelLayer { node_defaults: props(nd), edge_defaults: vec![], nodes, edges, simulation: None }
}

fn base() -> ModelBase<u32> {
    ModelBase { node: props(&[("radio/sf", 7), ("radio/power", 20)]), edge: props(&[("link/snr", 10)]), simulation: props(&[("seed", 1)]) }
}

fn node_props(m: &MergedModel<u32>, name: &str) -> Vec<(String, u32)> {
    let mut p = m.nodes.iter().find(|(n, _)| n == name).expect("node").1.clone();
    p.sort();
    p
}

#[test]
fn later_layers_override_earlier_ones() {
    let l1 = layer(&[("radio/sf", 8)], vec![node("a", &[("x", 1)]), node("b", &[])], vec![edge("a", "b", &[])]);
    let mut l2 = layer(&[("radio/sf", 9)], vec![node("a", &[("x", 2), ("y", 3)])], vec![edge("a", "b", &[("link/snr", 5)])]);
    l2.simulation = Some(props(&[("seed", 42)]));
    let m = merge_layers(&base(), &vec![l1, l2]).unwrap();
    // defaults of all layers apply to every node, the node's own values win
    assert_eq!(node_props(&m, "a"), props(&[("radio/power", 20), ("radio/sf", 9), ("x", 2), ("y", 3)]));
    assert_eq!(node_props(&m, "b"), props(&[("radio/power", 20), ("radio/sf", 9)]));
    // one edge per pair, the later one replacing the earlier
    assert_eq!(m.edges.len(), 1);
    assert_eq!(m.edges[0].1, props(&[("link/snr", 5)]));
    assert_eq!(m.simulation, props(&[("seed", 42)]));
}

#[test]
fn removing_a_node_removes_its_edges() {
    let l1 = layer(&[], vec![node("a", &[]), node("b", &[]), node("c", &[])], vec![edge("a", "b", &[]), edge("b", "c", &[]), edge("a", "c", &[])]);
    let l2 = layer(&[], vec![remove_node("b")], vec![]);
    let m = merge_layers(&base(), &vec![l1, l2]).unwrap();
    assert_eq!(m.nodes.len(), 2);
    let ends: Vec<(String, String)> = m.edges.iter().map(|e| e.0.clone()).collect();
    assert_eq!(ends, vec![("a".to_string(), "c".to_string())]);
}

#[test]
fn references_checked_on_the_final_model_only() {
    // the edge names a node that only a later layer adds
    let l1 = layer(&[], vec![node("a", &[])], vec![edge("a", "z", &[])]);
    let l2 = layer(&[], vec![node("z", &[])], vec![]);
    assert!(merge_layers(&base(), &vec![l1, l2]).is_ok());
    let l1 = layer(&[], vec![node("a", &[])], vec![edge("a", "z", &[])]);
    match merge_layers(&base(), &vec![l1]) {
        Err(ModelError::InvalidEdge { from, to }) => assert_eq!((from.as_str(), to.as_str()), ("a", "z")),
        other => panic!("unexpected {:?}", other.err()),
    }
}

#[test]
fn merge_errors() {
    assert!(matches!(merge_layers::<u32>(&base(), &vec![]), Err(ModelError::NoModels)));
    let l = layer(&[], vec![remove_node("ghost")], vec![]);
    match merge_layers(&base(), &vec![l]) {
        Err(ModelError::NodeNotFound(n)) => assert_eq!(n, "ghost"),
        other => panic!("unexpected {:?}", other.err()),
    }
    let mut l = layer(&[], vec![node("a", &[])], vec![]);
    l.edges.push(EdgeLayer { from: "a".to_string(), to: "b".to_string(), remove: true, properties: vec![] });
    match merge_layers(&base(), &vec![l]) {
        Err(ModelError::InvalidEdge { from, to }) => assert_eq!((from.as_str(), to.as_str()), ("a", "b")),
        other => panic!("unexpected {:?}", other.err()),
    }
}

use mcsim::common::EntityId;
use mcsim::links::LinkModel;

fn ids(r: &[(EntityId, &u32)]) -> Vec<(u64, u32)> {
    r.iter().map(|(e, v)| (e.0, **v)).collect()
}

#[test]
fn receivers_in_increasing_id_order() {
    let mut m: LinkModel<u32> = LinkModel::new();
    m.add_edge(EntityId(5), EntityId(9), 59);
    m.add_edge(EntityId(5), EntityId(2), 52);
    m.add_edge(EntityId(3), EntityId(1), 31);
    m.add_edge(EntityId(5), EntityId(7), 57);
    m.add_edge(EntityId(6), EntityId(5), 65);
    assert_eq!(ids(&m.get_receivers(EntityId(5))), vec![(2, 52), (7, 57), (9, 59)]);
    assert_eq!(ids(&m.get_receivers(EntityId(3))), vec![(1, 31)]);
    assert!(m.get_receivers(EntityId(9)).is_empty());
}

#[test]
fn links_are_directed_and_replaced() {
    let mut m: LinkModel<u32> = LinkModel::default();
    m.add_edge(EntityId(1), EntityId(2), 10);
    assert_eq!(m.get_link(EntityId(1), EntityId(2)), Some(&10));
    assert_eq!(m.get_link(EntityId(2), EntityId(1)), None);
    m.add_edge(EntityId(1), EntityId(2), 11);
    assert_eq!(m.get_link(EntityId(1), EntityId(2)), Some(&11));
    assert_eq!(ids(&m.get_receivers(EntityId(1))), vec![(2, 11)]);
}

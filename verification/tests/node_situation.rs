use manager::net::{IpAddress, NodeDescription};
use manager::node_situation::{NodeCategory, NodeSituation, NodeSituationData, NodeSituationHashSetImpl};

fn connected() -> NodeSituationHashSetImpl {
    NodeSituationHashSetImpl::new(NodeSituationData::new(
        NodeCategory::NodeConnected { parent_id: 1, parent_node_ip: IpAddress::V4(1), parent_node_port: 11 },
        5,
        vec!["a".to_string(), "b".to_string()],
        IpAddress::V4(5),
        55,
    ))
}

fn market() -> NodeSituationHashSetImpl {
    NodeSituationHashSetImpl::new(NodeSituationData::new(
        NodeCategory::MarketConnected { market_ip: IpAddress::V6(9), market_port: 99 },
        5,
        vec![],
        IpAddress::V4(5),
        55,
    ))
}

#[test]
fn identity_of_the_node() {
    let ns = connected();
    assert_eq!(ns.get_my_id(), 5);
    assert_eq!(ns.get_my_tags(), vec!["a".to_string(), "b".to_string()]);
    assert_eq!(ns.get_my_public_ip(), IpAddress::V4(5));
    assert_eq!(ns.get_my_public_port(), 55);
}

#[test]
fn connected_node_has_a_parent() {
    let ns = connected();
    assert!(!ns.is_market());
    assert_eq!(ns.get_parent_id(), Some(1));
    assert_eq!(ns.get_parent_node_address(), Some((IpAddress::V4(1), 11)));
    assert_eq!(ns.get_market_node_address(), None);
    assert_eq!(ns.get_fog_node_neighbor(&1), Some(NodeDescription { ip: IpAddress::V4(1), port: 11 }));
    assert_eq!(ns.get_neighbors(), vec![1]);
}

#[test]
fn market_node_has_no_parent() {
    let ns = market();
    assert!(ns.is_market());
    assert_eq!(ns.get_parent_id(), None);
    assert_eq!(ns.get_parent_node_address(), None);
    assert_eq!(ns.get_market_node_address(), Some((IpAddress::V6(9), 99)));
    assert_eq!(ns.get_fog_node_neighbor(&1), None);
    assert!(ns.get_neighbors().is_empty());
}

#[test]
fn registered_children_are_neighbors() {
    let mut ns = connected();
    let d1 = NodeDescription { ip: IpAddress::V4(20), port: 20 };
    let d2 = NodeDescription { ip: IpAddress::V4(30), port: 30 };
    ns.register(20, d1);
    ns.register(30, d2);
    assert_eq!(ns.get_fog_node_neighbor(&20), Some(d1));
    assert_eq!(ns.get_fog_node_neighbor(&30), Some(d2));
    assert_eq!(ns.get_fog_node_neighbor(&40), None);
    let mut n = ns.get_neighbors();
    assert_eq!(*n.last().unwrap(), 1);
    n.sort();
    assert_eq!(n, vec![1, 20, 30]);
}

#[test]
fn re_registering_replaces_the_address() {
    let mut ns = market();
    ns.register(20, NodeDescription { ip: IpAddress::V4(20), port: 20 });
    ns.register(20, NodeDescription { ip: IpAddress::V4(21), port: 21 });
    assert_eq!(ns.get_fog_node_neighbor(&20), Some(NodeDescription { ip: IpAddress::V4(21), port: 21 }));
    assert_eq!(ns.get_neighbors(), vec![20]);
}

#[test]
fn child_named_like_the_parent_takes_precedence() {
    let mut ns = connected();
    ns.register(1, NodeDescription { ip: IpAddress::V4(77), port: 7 });
    assert_eq!(ns.get_fog_node_neighbor(&1), Some(NodeDescription { ip: IpAddress::V4(77), port: 7 }));
    assert_eq!(ns.get_neighbors(), vec![1, 1]);
}

#[test]
fn registered_child_survives_other_registrations() {
    let mut ns = connected();
    let parent_as_child = NodeDescription { ip: IpAddress::V4(77), port: 7 };
    ns.register(1, parent_as_child);
    ns.register(30, NodeDescription { ip: IpAddress::V4(30), port: 30 });
    ns.register(40, NodeDescription { ip: IpAddress::V4(40), port: 40 });
    assert_eq!(ns.get_fog_node_neighbor(&1), Some(parent_as_child));
    assert_eq!(ns.get_fog_node_neighbor(&30), Some(NodeDescription { ip: IpAddress::V4(30), port: 30 }));
}

#[test]
fn neighbors_list_each_child_once_then_the_parent() {
    let mut ns = connected();
    ns.register(1, NodeDescription { ip: IpAddress::V4(77), port: 7 });
    ns.register(30, NodeDescription { ip: IpAddress::V4(30), port: 30 });
    ns.register(30, NodeDescription { ip: IpAddress::V4(31), port: 31 });
    let neighbors = ns.get_neighbors();
    assert_eq!(neighbors.len(), 3);
    assert_eq!(neighbors[2], 1);
    let mut children = neighbors[..2].to_vec();
    children.sort();
    assert_eq!(children, vec![1, 30]);
    let mut m = market();
    m.register(8, NodeDescription { ip: IpAddress::V4(8), port: 8 });
    assert_eq!(m.get_neighbors(), vec![8]);
}

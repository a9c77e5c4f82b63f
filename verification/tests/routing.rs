use manager::faas::{BidRecord, FaaSBackend, OpenFaaSBackend, Sla};
use manager::faas_routing_table::{FaaSRoutingTable, FaaSRoutingTableHashMap};
use manager::net::{IpAddress, NodeDescription};
use manager::node_situation::{
    NodeCategory, NodeSituation, NodeSituationData, NodeSituationHashSetImpl,
};
use manager::routing::{Router, RouterImpl};
use manager::routing_types::{
    Direction, Error, ForwardAction, LinkingForward, Packet, Route, RouteDirection, RouteLinking,
};

const ME: u128 = 100;
const PARENT: u128 = 1;
const CHILD: u128 = 200;
const FUNCTION: u128 = 0xabcdef;

fn parent_situation() -> NodeCategory {
    NodeCategory::NodeConnected {
        parent_id: PARENT,
        parent_node_ip: IpAddress::V4(0x0a000001),
        parent_node_port: 3001,
    }
}

fn market_situation() -> NodeCategory {
    NodeCategory::MarketConnected { market_ip: IpAddress::V4(0x0a0000fe), market_port: 3000 }
}

fn node(situation: NodeCategory) -> NodeSituationHashSetImpl {
    let mut ns = NodeSituationHashSetImpl::new(NodeSituationData::new(
        situation,
        ME,
        vec!["edge".to_string()],
        IpAddress::V4(0x0a000064),
        3100,
    ));
    ns.register(CHILD, NodeDescription { ip: IpAddress::V6(7), port: 3200 });
    ns
}

fn router(situation: NodeCategory) -> RouterImpl {
    RouterImpl::new(FaaSRoutingTableHashMap::new(), node(situation), OpenFaaSBackend::new())
}

fn sla() -> Sla {
    Sla {
        id: 1,
        function_live_name: "echo".to_string(),
        function_image: "img".to_string(),
        memory: "1Gi".to_string(),
        cpu: "1".to_string(),
    }
}

#[test]
fn routing_table_gives_back_what_was_recorded() {
    let mut table = FaaSRoutingTableHashMap::new();
    assert_eq!(table.get(&FUNCTION), None);
    table.update(FUNCTION, Direction::NextNode(CHILD));
    assert_eq!(table.get(&FUNCTION), Some(Direction::NextNode(CHILD)));
    table.update(FUNCTION, Direction::CurrentNode);
    assert_eq!(table.get(&FUNCTION), Some(Direction::CurrentNode));
    assert_eq!(table.get(&(FUNCTION + 1)), None);
}

#[test]
fn last_route_update_wins_over_other_functions() {
    let mut table = FaaSRoutingTableHashMap::new();
    table.update(FUNCTION, Direction::NextNode(CHILD));
    table.update(FUNCTION + 1, Direction::CurrentNode);
    table.update(FUNCTION + 2, Direction::NextNode(CHILD + 1));
    assert_eq!(table.get(&FUNCTION), Some(Direction::NextNode(CHILD)));
    assert_eq!(table.get(&(FUNCTION + 3)), None);
}

#[test]
fn register_route_records_first_node_and_links_both_ways() {
    let mut r = router(parent_situation());
    let parts = r.register_function_route(Route {
        function: FUNCTION,
        stack_asc: vec![CHILD, 300, 400],
        stack_rev: vec![500, 600],
    });
    assert_eq!(parts.len(), 2);
    // way back: next node is the back of the stack, from where the routes meet
    assert_eq!(parts[0].route_to_stack, vec![600, ME]);
    assert_eq!(parts[0].linking.stack, vec![500]);
    assert!(matches!(parts[0].linking.direction, RouteDirection::FinishToStart { prev_last_node: 600 }));
    // way to the function
    assert_eq!(parts[1].route_to_stack, vec![CHILD, ME]);
    assert_eq!(parts[1].linking.stack, vec![300, 400]);
    assert!(matches!(parts[1].linking.direction, RouteDirection::StartToFinish));
    let res = r.forward(&Packet::FaaSFunction { to: FUNCTION, data: "{}".to_string() }).unwrap();
    match res {
        ForwardAction::ToRouting { ip, port, packet: Packet::FaaSFunction { to, data } } => {
            assert_eq!(ip, IpAddress::V6(7));
            assert_eq!(port, 3200);
            assert_eq!(to, FUNCTION);
            assert_eq!(data, "{}");
        }
        other => panic!("unexpected {:?}", other),
    }
}

#[test]
fn register_route_to_self_uses_current_node() {
    let mut r = router(parent_situation());
    let parts = r.register_function_route(Route { function: FUNCTION, stack_asc: vec![], stack_rev: vec![700] });
    assert_eq!(parts.len(), 1);
    assert!(matches!(parts[0].linking.direction, RouteDirection::FinishToStart { prev_last_node: ME }));
    assert_eq!(parts[0].route_to_stack, vec![700, ME]);
    assert!(parts[0].linking.stack.is_empty());
    // no provisioned function yet: unknown bid
    assert_eq!(
        r.forward(&Packet::FaaSFunction { to: FUNCTION, data: "1".to_string() }).unwrap_err(),
        Error::UnknownBidId(FUNCTION)
    );
}

#[test]
fn route_linking_walking_back_records_the_parent() {
    let mut r = router(parent_situation());
    let linking = RouteLinking {
        direction: RouteDirection::FinishToStart { prev_last_node: 9 },
        stack: vec![11, 12],
        function: FUNCTION,
    };
    let fwd: LinkingForward = r.route_linking(linking, false).unwrap().unwrap();
    assert_eq!(fwd.route_to_stack, vec![12, ME]);
    assert_eq!(fwd.linking.stack, vec![11]);
    // the recorded way is the parent, which the node can reach
    let res = r.forward(&Packet::FaaSFunction { to: FUNCTION, data: "x".to_string() }).unwrap();
    assert!(matches!(res, ForwardAction::ToRouting { port: 3001, .. }));
}

#[test]
fn route_linking_without_parent_fails() {
    let mut r = router(market_situation());
    let linking = RouteLinking {
        direction: RouteDirection::FinishToStart { prev_last_node: 9 },
        stack: vec![11],
        function: FUNCTION,
    };
    assert_eq!(r.route_linking(linking, false).unwrap_err(), Error::NextNodeIsNotDefined);
    // nothing was recorded
    assert_eq!(
        r.forward(&Packet::FaaSFunction { to: FUNCTION, data: "x".to_string() }).unwrap_err(),
        Error::UnknownBidId(FUNCTION)
    );
}

#[test]
fn route_linking_at_the_end_of_the_stack() {
    let mut r = router(parent_situation());
    let done = r
        .route_linking(RouteLinking { direction: RouteDirection::StartToFinish, stack: vec![], function: FUNCTION }, false)
        .unwrap();
    assert!(done.is_none());
    // the function is here: it must be provisioned to be invoked
    assert_eq!(
        r.forward(&Packet::FaaSFunction { to: FUNCTION, data: "x".to_string() }).unwrap_err(),
        Error::UnknownBidId(FUNCTION)
    );
}

#[test]
fn function_here_is_invoked() {
    let mut faas = OpenFaaSBackend::new();
    let name = faas
        .provision_function(FUNCTION, BidRecord { sla: sla() }, Ok(()))
        .unwrap();
    let mut table = FaaSRoutingTableHashMap::new();
    table.update(FUNCTION, Direction::CurrentNode);
    let r = RouterImpl::new(table, node(parent_situation()), faas);
    match r.forward(&Packet::FaaSFunction { to: FUNCTION, data: "{\"a\":1}".to_string() }).unwrap() {
        ForwardAction::InvokeFunction { function_name, payload } => {
            assert_eq!(function_name, name);
            assert_eq!(payload, "{\"a\":1}");
        }
        other => panic!("unexpected {:?}", other),
    }
}

#[test]
fn unknown_next_node_is_refused() {
    let mut table = FaaSRoutingTableHashMap::new();
    table.update(FUNCTION, Direction::NextNode(999));
    let r = RouterImpl::new(table, node(parent_situation()), OpenFaaSBackend::new());
    assert_eq!(
        r.forward(&Packet::FaaSFunction { to: FUNCTION, data: "x".to_string() }).unwrap_err(),
        Error::NextNodeDoesntExist(999)
    );
}

#[test]
fn fog_node_packet_goes_down_its_stack() {
    let r = router(parent_situation());
    let res = r
        .forward(&Packet::FogNode {
            route_to_stack: vec![CHILD, ME],
            resource_uri: "route_linking".to_string(),
            data: "[]".to_string(),
        })
        .unwrap();
    match res {
        ForwardAction::ToRouting { ip, port, packet: Packet::FogNode { route_to_stack, resource_uri, data } } => {
            assert_eq!((ip, port), (IpAddress::V6(7), 3200));
            assert_eq!(route_to_stack, vec![CHILD]);
            assert_eq!(resource_uri, "route_linking");
            assert_eq!(data, "[]");
        }
        other => panic!("unexpected {:?}", other),
    }
}

#[test]
fn fog_node_packet_arrives() {
    let r = router(parent_situation());
    let res = r
        .forward(&Packet::FogNode { route_to_stack: vec![ME], resource_uri: "api/x".to_string(), data: "1".to_string() })
        .unwrap();
    match res {
        ForwardAction::ToUrl { ip, port, resource_uri, data } => {
            assert_eq!((ip, port), (IpAddress::V4(0x0a000064), 3100));
            assert_eq!(resource_uri, "api/x");
            assert_eq!(data, "1");
        }
        other => panic!("unexpected {:?}", other),
    }
}

#[test]
fn malformed_stacks_are_refused() {
    let r = router(parent_situation());
    let empty = Packet::FogNode { route_to_stack: vec![], resource_uri: "x".to_string(), data: "1".to_string() };
    assert_eq!(r.forward(&empty).unwrap_err(), Error::MalformedRoutingStack);
    let not_mine = Packet::FogNode { route_to_stack: vec![CHILD, 5], resource_uri: "x".to_string(), data: "1".to_string() };
    assert_eq!(r.forward(&not_mine).unwrap_err(), Error::MalformedRoutingStack);
    let lost = Packet::FogNode { route_to_stack: vec![5, ME], resource_uri: "x".to_string(), data: "1".to_string() };
    assert_eq!(r.forward(&lost).unwrap_err(), Error::NextNodeDoesntExist(5));
}

#[test]
fn market_packets_go_up() {
    let market_packet = Packet::Market { resource_uri: "api/bid".to_string(), data: "{}".to_string() };
    match router(market_situation()).forward(&market_packet).unwrap() {
        ForwardAction::ToUrl { ip, port, resource_uri, .. } => {
            assert_eq!((ip, port), (IpAddress::V4(0x0a0000fe), 3000));
            assert_eq!(resource_uri, "api/bid");
        }
        other => panic!("unexpected {:?}", other),
    }
    match router(parent_situation()).forward(&market_packet).unwrap() {
        ForwardAction::ToRouting { ip, port, packet: Packet::Market { resource_uri, .. } } => {
            assert_eq!((ip, port), (IpAddress::V4(0x0a000001), 3001));
            assert_eq!(resource_uri, "api/bid");
        }
        other => panic!("unexpected {:?}", other),
    }
}

#[test]
fn linking_packet_targets_route_linking() {
    let fwd = LinkingForward {
        route_to_stack: vec![CHILD, ME],
        linking: RouteLinking { direction: RouteDirection::StartToFinish, stack: vec![], function: FUNCTION },
    };
    match RouterImpl::linking_packet(fwd, "{\"k\":1}".to_string()) {
        Packet::FogNode { route_to_stack, resource_uri, data } => {
            assert_eq!(route_to_stack, vec![CHILD, ME]);
            assert_eq!(resource_uri, "route_linking");
            assert_eq!(data, "{\"k\":1}");
        }
        other => panic!("unexpected {:?}", other),
    }
}

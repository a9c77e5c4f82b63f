//! The routing service of a fog node: linking the routes of functions
//! through the network and deciding where each packet goes next.
use vstd::prelude::*;

use crate::faas::{FaaSBackend, OpenFaaSBackend};
use crate::faas_routing_table::{FaaSRoutingTable, FaaSRoutingTableHashMap};
use crate::ids::{BidId, NodeId};
use crate::node_situation::{
    neighbor_of, parent_of, NodeCategory, NodeSituation, NodeSituationHashSetImpl,
};
use crate::routing_types::{
    Direction, Error, ForwardAction, LinkingForward, Packet, PacketView, Route, RouteDirection,
    RouteLinking,
};

verus! {

/// The next node of a non-empty linking stack: its front when walking from
/// start to finish, its back when walking back.
pub open spec fn next_of(direction: RouteDirection, stack: Seq<NodeId>) -> NodeId {
    match direction {
        RouteDirection::StartToFinish => stack[0],
        RouteDirection::FinishToStart { .. } => stack.last(),
    }
}

/// The stack left once its next node is taken off.
pub open spec fn rest_of(direction: RouteDirection, stack: Seq<NodeId>) -> Seq<NodeId> {
    match direction {
        RouteDirection::StartToFinish => stack.drop_first(),
        RouteDirection::FinishToStart { .. } => stack.drop_last(),
    }
}

/// Where a linking points from this node: its next node, or, once its stack
/// is used up, the function here (start to finish) or the node it came from
/// (finish to start).
pub open spec fn linking_target(direction: RouteDirection, stack: Seq<NodeId>) -> Direction {
    if stack.len() == 0 {
        match direction {
            RouteDirection::StartToFinish => Direction::CurrentNode,
            RouteDirection::FinishToStart { prev_last_node } => Direction::NextNode(prev_last_node),
        }
    } else {
        Direction::NextNode(next_of(direction, stack))
    }
}

/// `f` sends the rest of the linking (`direction`, `stack`, `function`) on to
/// its next node, from the node `my_id`.
pub open spec fn forwards_linking(
    f: LinkingForward,
    direction: RouteDirection,
    stack: Seq<NodeId>,
    function: BidId,
    my_id: NodeId,
) -> bool {
    &&& f.route_to_stack@ == seq![next_of(direction, stack), my_id]
    &&& f.linking.direction == direction
    &&& f.linking.function == function
    &&& f.linking.stack@ == rest_of(direction, stack)
}

/// What a node `ns`, with routing table `routes` and provisioned functions
/// `provisioned`, does with `packet`.
pub open spec fn forward_outcome(
    routes: Map<BidId, Direction>,
    ns: NodeSituationHashSetImpl,
    provisioned: Map<BidId, crate::faas::ProvisionedRecord>,
    packet: PacketView,
    res: Result<ForwardAction, Error>,
) -> bool {
    match packet {
        PacketView::FaaSFunction { to, data } => {
            if !routes.dom().contains(to) {
                res == Err::<ForwardAction, Error>(Error::UnknownBidId(to))
            } else {
                match routes[to] {
                    Direction::NextNode(next) => match neighbor_of(ns.situation(), ns.children(), next) {
                        None => res == Err::<ForwardAction, Error>(Error::NextNodeDoesntExist(next)),
                        Some(d) => res matches Ok(ForwardAction::ToRouting { ip, port, packet: p })
                            && ip == d.ip && port == d.port && p@ == packet,
                    },
                    Direction::CurrentNode => if !provisioned.dom().contains(to) {
                        res == Err::<ForwardAction, Error>(Error::UnknownBidId(to))
                    } else {
                        res matches Ok(ForwardAction::InvokeFunction { function_name, payload })
                            && function_name == provisioned[to].function_name && payload@ == data
                    },
                }
            }
        },
        PacketView::FogNode { route_to_stack, resource_uri, data } => {
            if route_to_stack.len() == 0 || route_to_stack.last() != ns.my_id() {
                res == Err::<ForwardAction, Error>(Error::MalformedRoutingStack)
            } else {
                let rest = route_to_stack.drop_last();
                if rest.len() == 0 {
                    res matches Ok(ForwardAction::ToUrl { ip, port, resource_uri: u, data: d })
                        && ip == ns.my_public_ip() && port == ns.my_public_port() && u@
                        == resource_uri && d@ == data
                } else {
                    match neighbor_of(ns.situation(), ns.children(), rest.last()) {
                        None => res == Err::<ForwardAction, Error>(
                            Error::NextNodeDoesntExist(rest.last()),
                        ),
                        Some(d) => res matches Ok(ForwardAction::ToRouting { ip, port, packet: p })
                            && ip == d.ip && port == d.port && p@ == (PacketView::FogNode {
                            route_to_stack: rest,
                            resource_uri,
                            data,
                        }),
                    }
                }
            }
        },
        PacketView::Market { resource_uri, data } => match ns.situation() {
            NodeCategory::MarketConnected { market_ip, market_port } => res matches Ok(
                ForwardAction::ToUrl { ip, port, resource_uri: u, data: d },
            ) && ip == market_ip && port == market_port && u@ == resource_uri && d@ == data,
            NodeCategory::NodeConnected { parent_node_ip, parent_node_port, .. } => res matches Ok(
                ForwardAction::ToRouting { ip, port, packet: p },
            ) && ip == parent_node_ip && port == parent_node_port && p@ == packet,
        },
    }
}

/// Once the way to a function is recorded as a neighbour that the node can
/// reach, the function's requests are sent to that neighbour, unchanged.
pub proof fn lemma_recorded_route_is_followed(
    routes: Map<BidId, Direction>,
    ns: NodeSituationHashSetImpl,
    provisioned: Map<BidId, crate::faas::ProvisionedRecord>,
    function: BidId,
    next: NodeId,
    data: Seq<char>,
    res: Result<ForwardAction, Error>,
)
    requires
        neighbor_of(ns.situation(), ns.children(), next) is Some,
        forward_outcome(
            routes.insert(function, Direction::NextNode(next)),
            ns,
            provisioned,
            PacketView::FaaSFunction { to: function, data },
            res,
        ),
    ensures
        res matches Ok(ForwardAction::ToRouting { ip, port, packet }) && ip == neighbor_of(
            ns.situation(),
            ns.children(),
            next,
        )->0.ip && port == neighbor_of(ns.situation(), ns.children(), next)->0.port && packet@
            == (PacketView::FaaSFunction { to: function, data }),
{
}

/// Each hop of a packet routed along a stack of nodes takes one node off
/// the stack, so the packet reaches its destination after as many hops as
/// the stack has nodes.
pub proof fn lemma_hop_shrinks_stack(
    routes: Map<BidId, Direction>,
    ns: NodeSituationHashSetImpl,
    provisioned: Map<BidId, crate::faas::ProvisionedRecord>,
    route_to_stack: Seq<NodeId>,
    resource_uri: Seq<char>,
    data: Seq<char>,
    res: Result<ForwardAction, Error>,
)
    requires
        forward_outcome(
            routes,
            ns,
            provisioned,
            PacketView::FogNode { route_to_stack, resource_uri, data },
            res,
        ),
        res matches Ok(ForwardAction::ToRouting { .. }),
    ensures
        res matches Ok(ForwardAction::ToRouting { packet, .. }) && packet@ matches PacketView::FogNode {
            route_to_stack: next_stack,
            ..
        } && next_stack.len() + 1 == route_to_stack.len(),
{
}

/// Each linking step hands on a stack one node shorter, so the linking of a
/// route ends after as many steps as its stack has nodes.
pub proof fn lemma_linking_stack_shrinks(
    f: LinkingForward,
    direction: RouteDirection,
    stack: Seq<NodeId>,
    function: BidId,
    my_id: NodeId,
)
    requires
        stack.len() > 0,
        forwards_linking(f, direction, stack, function, my_id),
    ensures
        f.linking.stack@.len() + 1 == stack.len(),
{
}

/// The payload of a packet.
pub open spec fn packet_data(packet: PacketView) -> Seq<char> {
    match packet {
        PacketView::FaaSFunction { data, .. } => data,
        PacketView::FogNode { data, .. } => data,
        PacketView::Market { data, .. } => data,
    }
}

/// The payload that a forwarding action carries on.
pub open spec fn action_data(action: ForwardAction) -> Seq<char> {
    match action {
        ForwardAction::ToRouting { packet, .. } => packet_data(packet@),
        ForwardAction::ToUrl { data, .. } => data@,
        ForwardAction::InvokeFunction { payload, .. } => payload@,
    }
}

/// Forwarding never alters the payload: what is sent on, to a neighbour, to
/// a resource or to the function, carries the data of the packet received.
pub proof fn lemma_forward_keeps_payload(
    routes: Map<BidId, Direction>,
    ns: NodeSituationHashSetImpl,
    provisioned: Map<BidId, crate::faas::ProvisionedRecord>,
    packet: PacketView,
    res: Result<ForwardAction, Error>,
)
    requires
        forward_outcome(routes, ns, provisioned, packet, res),
        res is Ok,
    ensures
        action_data(res->Ok_0) == packet_data(packet),
{
}

/// A market packet goes up unchanged: from a node with a parent, to the
/// parent, with the same resource and the same data; from the root node,
/// its data goes to that resource of the market.
pub proof fn lemma_market_packet_goes_up(
    routes: Map<BidId, Direction>,
    ns: NodeSituationHashSetImpl,
    provisioned: Map<BidId, crate::faas::ProvisionedRecord>,
    resource_uri: Seq<char>,
    data: Seq<char>,
    res: Result<ForwardAction, Error>,
)
    requires
        forward_outcome(routes, ns, provisioned, PacketView::Market { resource_uri, data }, res),
    ensures
        match ns.situation() {
            NodeCategory::NodeConnected { parent_node_ip, parent_node_port, .. } => res matches Ok(
                ForwardAction::ToRouting { ip, port, packet },
            ) && ip == parent_node_ip && port == parent_node_port && (packet@ matches PacketView::Market {
                resource_uri: u,
                data: d,
            } && u == resource_uri && d == data),
            NodeCategory::MarketConnected { market_ip, market_port } => res matches Ok(
                ForwardAction::ToUrl { ip, port, resource_uri: u, data: d },
            ) && ip == market_ip && port == market_port && u@ == resource_uri && d@ == data,
        },
{
}

/// A packet routed along a stack, held by this node on top with more nodes
/// below, goes to the node just below the top, which it reaches as a
/// neighbour, and carries the stack without this node, so that the next
/// node is on top; it fails when that node is no neighbour.
pub proof fn lemma_stack_packet_goes_below_top(
    routes: Map<BidId, Direction>,
    ns: NodeSituationHashSetImpl,
    provisioned: Map<BidId, crate::faas::ProvisionedRecord>,
    route_to_stack: Seq<NodeId>,
    resource_uri: Seq<char>,
    data: Seq<char>,
    res: Result<ForwardAction, Error>,
)
    requires
        forward_outcome(
            routes,
            ns,
            provisioned,
            PacketView::FogNode { route_to_stack, resource_uri, data },
            res,
        ),
        route_to_stack.len() >= 2,
        route_to_stack.last() == ns.my_id(),
    ensures
        ({
            let below = route_to_stack[route_to_stack.len() - 2];
            match neighbor_of(ns.situation(), ns.children(), below) {
                None => res == Err::<ForwardAction, Error>(Error::NextNodeDoesntExist(below)),
                Some(d) => res matches Ok(ForwardAction::ToRouting { ip, port, packet })
                    && ip == d.ip && port == d.port && (packet@ matches PacketView::FogNode {
                    route_to_stack: s,
                    resource_uri: u,
                    data: x,
                } && s == route_to_stack.drop_last() && s.last() == below && u == resource_uri
                    && x == data),
            }
        }),
{
    assert(route_to_stack.drop_last().last() == route_to_stack[route_to_stack.len() - 2]);
}

/// A function request goes where the routing table says: to the recorded
/// neighbour, unchanged, or to the function provisioned here under its
/// provisioned name; a function without a route, or routed here but not
/// provisioned here, is unknown, and a neighbour the node cannot reach does
/// not exist.
pub proof fn lemma_function_request_follows_table(
    routes: Map<BidId, Direction>,
    ns: NodeSituationHashSetImpl,
    provisioned: Map<BidId, crate::faas::ProvisionedRecord>,
    to: BidId,
    data: Seq<char>,
    res: Result<ForwardAction, Error>,
)
    requires
        forward_outcome(routes, ns, provisioned, PacketView::FaaSFunction { to, data }, res),
    ensures
        !routes.dom().contains(to) ==> res == Err::<ForwardAction, Error>(Error::UnknownBidId(to)),
        routes.dom().contains(to) ==> match routes[to] {
            Direction::CurrentNode => if provisioned.dom().contains(to) {
                res matches Ok(ForwardAction::InvokeFunction { function_name, payload })
                    && function_name == provisioned[to].function_name && payload@ == data
            } else {
                res == Err::<ForwardAction, Error>(Error::UnknownBidId(to))
            },
            Direction::NextNode(next) => if neighbor_of(ns.situation(), ns.children(), next) is Some {
                res matches Ok(ForwardAction::ToRouting { ip, port, packet }) && ip == neighbor_of(
                    ns.situation(),
                    ns.children(),
                    next,
                )->0.ip && port == neighbor_of(ns.situation(), ns.children(), next)->0.port
                    && packet@ == (PacketView::FaaSFunction { to, data })
            } else {
                res == Err::<ForwardAction, Error>(Error::NextNodeDoesntExist(next))
            },
        },
{
}

/// A packet routed along a stack is refused unless this node is on its top;
/// once this node is the only one left, its data goes to the requested
/// resource of this node.
pub proof fn lemma_stack_packet_held_here(
    routes: Map<BidId, Direction>,
    ns: NodeSituationHashSetImpl,
    provisioned: Map<BidId, crate::faas::ProvisionedRecord>,
    route_to_stack: Seq<NodeId>,
    resource_uri: Seq<char>,
    data: Seq<char>,
    res: Result<ForwardAction, Error>,
)
    requires
        forward_outcome(
            routes,
            ns,
            provisioned,
            PacketView::FogNode { route_to_stack, resource_uri, data },
            res,
        ),
    ensures
        route_to_stack.len() == 0 || route_to_stack.last() != ns.my_id() ==> res == Err::<
            ForwardAction,
            Error,
        >(Error::MalformedRoutingStack),
        route_to_stack == seq![ns.my_id()] ==> (res matches Ok(
            ForwardAction::ToUrl { ip, port, resource_uri: u, data: d },
        ) && ip == ns.my_public_ip() && port == ns.my_public_port() && u@ == resource_uri && d@
            == data),
{
    if route_to_stack == seq![ns.my_id()] {
        assert(route_to_stack.drop_last().len() == 0);
    }
}

/// Walking from start to finish, a node records as the way to the function
/// the node it sends the linking on to, the first of the stack; with the
/// stack used up, the function itself, here.
pub proof fn lemma_linking_records_next_hop(
    f: LinkingForward,
    stack: Seq<NodeId>,
    function: BidId,
    my_id: NodeId,
)
    requires
        stack.len() > 0 ==> forwards_linking(
            f,
            RouteDirection::StartToFinish,
            stack,
            function,
            my_id,
        ),
    ensures
        stack.len() == 0 ==> linking_target(RouteDirection::StartToFinish, stack)
            == Direction::CurrentNode,
        stack.len() > 0 ==> linking_target(RouteDirection::StartToFinish, stack)
            == Direction::NextNode(stack[0]) && f.route_to_stack@[0] == stack[0],
{
}

/// A linking step sent on names the function of the linking received and
/// walks the same way; it goes from this node to the next node of the
/// stack, and carries the stack without that node: putting the next node
/// back where it was taken gives the stack received.
pub proof fn lemma_linking_step_keeps_function(
    f: LinkingForward,
    direction: RouteDirection,
    stack: Seq<NodeId>,
    function: BidId,
    my_id: NodeId,
)
    requires
        stack.len() > 0,
        forwards_linking(f, direction, stack, function, my_id),
    ensures
        f.linking.function == function,
        f.linking.direction == direction,
        f.route_to_stack@.len() == 2,
        f.route_to_stack@[1] == my_id,
        match direction {
            RouteDirection::StartToFinish => seq![f.route_to_stack@[0]] + f.linking.stack@
                == stack,
            RouteDirection::FinishToStart { .. } => f.linking.stack@.push(f.route_to_stack@[0])
                == stack,
        },
{
    match direction {
        RouteDirection::StartToFinish => {
            assert(seq![f.route_to_stack@[0]] + f.linking.stack@ =~= stack);
        },
        RouteDirection::FinishToStart { .. } => {
            assert(f.linking.stack@.push(f.route_to_stack@[0]) =~= stack);
        },
    }
}

/// The routing service of a node.
#[derive(Debug)]
pub struct RouterImpl {
    faas_routing_table: FaaSRoutingTableHashMap,
    node_situation: NodeSituationHashSetImpl,
    faas: OpenFaaSBackend,
}

/// Service to manage the behaviour of the routing.
pub trait Router {
    /// The routing table.
    spec fn routes(&self) -> Map<BidId, Direction>;

    /// The node's situation.
    spec fn situation(&self) -> NodeSituationHashSetImpl;

    /// The functions provisioned on the node.
    spec fn provisioned(&self) -> Map<BidId, crate::faas::ProvisionedRecord>;

    /// Links this node into a route: takes the next node off the linking
    /// stack, records in the routing table where requests for the function
    /// go (unless `readonly`), and tells what to send on to the next node,
    /// if any. Walking back, the recorded way is the parent node, and
    /// linking fails when there is no parent.
    fn route_linking(&mut self, linking: RouteLinking, readonly: bool) -> (res: Result<
        Option<LinkingForward>,
        Error,
    >)
        ensures
            final(self).situation() == old(self).situation(),
            final(self).provisioned() == old(self).provisioned(),
            ({
                let direction = linking.direction;
                let stack = linking.stack@;
                let function = linking.function;
                let parent = parent_of(old(self).situation().situation());
                if !readonly && direction is FinishToStart && parent is None {
                    &&& res == Err::<Option<LinkingForward>, Error>(Error::NextNodeIsNotDefined)
                    &&& final(self).routes() == old(self).routes()
                } else {
                    &&& res is Ok
                    &&& final(self).routes() == if readonly {
                        old(self).routes()
                    } else {
                        old(self).routes().insert(
                            function,
                            match direction {
                                RouteDirection::StartToFinish => linking_target(direction, stack),
                                RouteDirection::FinishToStart { .. } => Direction::NextNode(
                                    parent->0,
                                ),
                            },
                        )
                    }
                    &&& if stack.len() == 0 {
                        res == Ok::<Option<LinkingForward>, Error>(None)
                    } else {
                        res matches Ok(Some(f)) && forwards_linking(
                            f,
                            direction,
                            stack,
                            function,
                            old(self).situation().my_id(),
                        )
                    }
                }
            }),
    ;

    /// Registers the route of a function on this node, where it starts: the
    /// way back is linked without touching this node's table, and the way to
    /// the function is recorded here (the function itself when the way is
    /// empty). Returns the linking steps to send on, the way back first.
    fn register_function_route(&mut self, route: Route) -> (res: Vec<LinkingForward>)
        ensures
            final(self).situation() == old(self).situation(),
            final(self).provisioned() == old(self).provisioned(),
            final(self).routes() == old(self).routes().insert(
                route.function,
                if route.stack_asc@.len() == 0 {
                    Direction::CurrentNode
                } else {
                    Direction::NextNode(route.stack_asc@[0])
                },
            ),
            ({
                let my_id = old(self).situation().my_id();
                let rev = route.stack_rev@;
                let asc = route.stack_asc@;
                let back = RouteDirection::FinishToStart {
                    prev_last_node: if rev.len() >= 2 {
                        rev[1]
                    } else {
                        my_id
                    },
                };
                let n_back: int = if rev.len() > 0 {
                    1
                } else {
                    0
                };
                &&& res@.len() == n_back + if asc.len() > 0 {
                    1int
                } else {
                    0int
                }
                &&& rev.len() > 0 ==> forwards_linking(res@[0], back, rev, route.function, my_id)
                &&& asc.len() > 0 ==> forwards_linking(
                    res@[n_back],
                    RouteDirection::StartToFinish,
                    asc,
                    route.function,
                    my_id,
                )
            }),
    ;

    /// Decides where a packet goes from this node: a function request goes
    /// the way the routing table records for it (to a neighbour, or to the
    /// function provisioned here); a packet routed along a stack of nodes
    /// must be held by this node, the top of its stack, and goes on to the
    /// node below, or to the requested resource here at the bottom; a market
    /// packet goes to the market from the root node, and to the parent from
    /// the others.
    fn forward(&self, packet: &Packet) -> (res: Result<ForwardAction, Error>)
        ensures
            forward_outcome(self.routes(), self.situation(), self.provisioned(), packet@, res),
    ;
}

impl RouterImpl {
    pub fn new(
        faas_routing_table: FaaSRoutingTableHashMap,
        node_situation: NodeSituationHashSetImpl,
        faas: OpenFaaSBackend,
    ) -> (res: Self)
        ensures
            res.routes() == faas_routing_table.routes(),
            res.situation() == node_situation,
            res.provisioned() == faas.provisioned(),
    {
        RouterImpl { faas_routing_table, node_situation, faas }
    }

    /// The packet that carries a linking step to its next node, once the
    /// linking has been written as JSON text `data`.
    pub fn linking_packet(forward: LinkingForward, data: String) -> (res: Packet)
        ensures
            res@ == (PacketView::FogNode {
                route_to_stack: forward.route_to_stack@,
                resource_uri: "route_linking"@,
                data: data@,
            }),
    {
        Packet::FogNode {
            route_to_stack: forward.route_to_stack,
            resource_uri: String::from_str("route_linking"),
            data,
        }
    }
}

impl Router for RouterImpl {
    closed spec fn routes(&self) -> Map<BidId, Direction> {
        self.faas_routing_table.routes()
    }

    closed spec fn situation(&self) -> NodeSituationHashSetImpl {
        self.node_situation
    }

    closed spec fn provisioned(&self) -> Map<BidId, crate::faas::ProvisionedRecord> {
        self.faas.provisioned()
    }

    fn route_linking(&mut self, linking: RouteLinking, readonly: bool) -> Result<
        Option<LinkingForward>,
        Error,
    > {
        let ghost old_stack = linking.stack@;
        let mut linking = linking;
        let linking_empty_at_start = linking.stack.len() == 0;
        let target = if linking_empty_at_start {
            match linking.direction {
                RouteDirection::StartToFinish => Direction::CurrentNode,
                RouteDirection::FinishToStart { prev_last_node } => Direction::NextNode(
                    prev_last_node,
                ),
            }
        } else {
            let next = match linking.direction {
                RouteDirection::StartToFinish => linking.stack.remove(0),
                RouteDirection::FinishToStart { .. } => {
                    let last = linking.stack.pop();
                    match last {
                        Some(n) => n,
                        None => {
                            return Err(Error::NextNodeIsNotDefined);
                        },
                    }
                },
            };
            Direction::NextNode(next)
        };
        if !readonly {
            let target = match linking.direction {
                RouteDirection::StartToFinish => target,
                RouteDirection::FinishToStart { .. } => match self.node_situation.get_parent_id() {
                    Some(parent) => Direction::NextNode(parent),
                    None => {
                        return Err(Error::NextNodeIsNotDefined);
                    },
                },
            };
            self.faas_routing_table.update(linking.function, target);
        }
        if linking_empty_at_start {
            return Ok(None);
        }
        match target {
            Direction::NextNode(next) => {
                let my_id = self.node_situation.get_my_id();
                let mut route_to_stack: Vec<NodeId> = Vec::new();
                route_to_stack.push(next);
                route_to_stack.push(my_id);
                proof {
                    assert(route_to_stack@ =~= seq![next, my_id]);
                    assert(linking.stack@ =~= rest_of(linking.direction, old_stack));
                }
                Ok(Some(LinkingForward { route_to_stack, linking }))
            },
            Direction::CurrentNode => Ok(None),
        }
    }

    fn register_function_route(&mut self, route: Route) -> Vec<LinkingForward> {
        let Route { function, stack_asc, stack_rev } = route;
        let mut parts: Vec<LinkingForward> = Vec::new();
        if stack_rev.len() != 0 {
            let prev_last_node = if stack_rev.len() >= 2 {
                stack_rev[1]
            } else {
                self.node_situation.get_my_id()
            };
            let link = RouteLinking {
                direction: RouteDirection::FinishToStart { prev_last_node },
                stack: stack_rev,
                function,
            };
            let part = self.route_linking(link, true);
            match part {
                Ok(Some(f)) => parts.push(f),
                _ => {},
            }
        }
        if stack_asc.len() != 0 {
            let link = RouteLinking {
                stack: stack_asc,
                direction: RouteDirection::StartToFinish,
                function,
            };
            let part = self.route_linking(link, false);
            match part {
                Ok(Some(f)) => parts.push(f),
                _ => {},
            }
        } else {
            self.faas_routing_table.update(function, Direction::CurrentNode);
        }
        parts
    }

    fn forward(&self, packet: &Packet) -> Result<ForwardAction, Error> {
        match packet {
            Packet::FaaSFunction { to, data } => {
                let node_to = match self.faas_routing_table.get(to) {
                    Some(d) => d,
                    None => {
                        return Err(Error::UnknownBidId(*to));
                    },
                };
                match node_to {
                    Direction::NextNode(next) => {
                        let next_node = match self.node_situation.get_fog_node_neighbor(&next) {
                            Some(d) => d,
                            None => {
                                return Err(Error::NextNodeDoesntExist(next));
                            },
                        };
                        let p = Packet::FaaSFunction { to: *to, data: data.clone() };
                        Ok(ForwardAction::ToRouting { ip: next_node.ip, port: next_node.port, packet: p })
                    },
                    Direction::CurrentNode => {
                        let record = match self.faas.get_provisioned_function(to) {
                            Some(r) => r,
                            None => {
                                return Err(Error::UnknownBidId(*to));
                            },
                        };
                        Ok(
                            ForwardAction::InvokeFunction {
                                function_name: record.function_name,
                                payload: data.clone(),
                            },
                        )
                    },
                }
            },
            Packet::FogNode { route_to_stack, resource_uri, data } => {
                let mut route_to = route_to_stack.clone();
                assert(route_to@ =~= route_to_stack@);
                let current_node = match route_to.pop() {
                    Some(n) => n,
                    None => {
                        return Err(Error::MalformedRoutingStack);
                    },
                };
                if current_node != self.node_situation.get_my_id() {
                    return Err(Error::MalformedRoutingStack);
                }
                if route_to.len() == 0 {
                    let my_ip = self.node_situation.get_my_public_ip();
                    let my_port = self.node_situation.get_my_public_port();
                    Ok(
                        ForwardAction::ToUrl {
                            ip: my_ip,
                            port: my_port,
                            resource_uri: resource_uri.clone(),
                            data: data.clone(),
                        },
                    )
                } else {
                    let next = route_to[route_to.len() - 1];
                    let next_node = match self.node_situation.get_fog_node_neighbor(&next) {
                        Some(d) => d,
                        None => {
                            return Err(Error::NextNodeDoesntExist(next));
                        },
                    };
                    Ok(
                        ForwardAction::ToRouting {
                            ip: next_node.ip,
                            port: next_node.port,
                            packet: Packet::FogNode {
                                route_to_stack: route_to,
                                resource_uri: resource_uri.clone(),
                                data: data.clone(),
                            },
                        },
                    )
                }
            },
            Packet::Market { resource_uri, data } => {
                if self.node_situation.is_market() {
                    match self.node_situation.get_market_node_address() {
                        Some((ip, port)) => Ok(
                            ForwardAction::ToUrl {
                                ip,
                                port,
                                resource_uri: resource_uri.clone(),
                                data: data.clone(),
                            },
                        ),
                        None => vstd::pervasive::unreached(),
                    }
                } else {
                    match self.node_situation.get_parent_node_address() {
                        Some((ip, port)) => Ok(
                            ForwardAction::ToRouting { ip, port, packet: packet.clone() },
                        ),
                        None => vstd::pervasive::unreached(),
                    }
                }
            },
        }
    }
}

} // verus!

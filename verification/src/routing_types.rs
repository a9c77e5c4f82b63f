//! Routes of functions through the fog network, and the packets that travel
//! along them.
use vstd::prelude::*;

use crate::ids::{BidId, NodeId};
use crate::net::IpAddress;

verus! {

/// Where the requests of a function go from this node.
#[derive(Clone, Copy, Debug, PartialEq, Eq, Structural)]
pub enum Direction {
    /// To the given neighbour node.
    NextNode(NodeId),
    /// To the function provisioned on this node.
    CurrentNode,
}

/// The way a route is walked when it is linked.
#[derive(Clone, Copy, Debug, PartialEq, Eq, Structural)]
pub enum RouteDirection {
    /// From the requesting node towards the node that hosts the function.
    StartToFinish,
    /// From the hosting node back towards the requesting node.
    FinishToStart { prev_last_node: NodeId },
}

/// A route to register for a function: the nodes to go through towards the
/// function, and the nodes that lead back from the node where the routes meet.
#[derive(Debug)]
pub struct Route {
    pub function: BidId,
    pub stack_asc: Vec<NodeId>,
    pub stack_rev: Vec<NodeId>,
}

/// The part of a route still to be linked, handed from node to node.
#[derive(Debug)]
pub struct RouteLinking {
    pub direction: RouteDirection,
    pub stack: Vec<NodeId>,
    pub function: BidId,
}

/// A packet routed between fog nodes. Payloads are raw JSON text.
#[derive(Debug)]
pub enum Packet {
    /// A request for the function provisioned from bid `to`.
    FaaSFunction { to: BidId, data: String },
    /// A request for `resource_uri` on the node at the bottom of the stack,
    /// through the nodes of the stack; its top is the node that holds it now.
    FogNode { route_to_stack: Vec<NodeId>, resource_uri: String, data: String },
    /// A request for `resource_uri` of the market.
    Market { resource_uri: String, data: String },
}

/// A packet, with its texts and stack as sequences.
pub enum PacketView {
    FaaSFunction { to: BidId, data: Seq<char> },
    FogNode { route_to_stack: Seq<NodeId>, resource_uri: Seq<char>, data: Seq<char> },
    Market { resource_uri: Seq<char>, data: Seq<char> },
}

impl View for Packet {
    type V = PacketView;

    open spec fn view(&self) -> PacketView {
        match self {
            Packet::FaaSFunction { to, data } => PacketView::FaaSFunction { to: *to, data: data@ },
            Packet::FogNode { route_to_stack, resource_uri, data } => PacketView::FogNode {
                route_to_stack: route_to_stack@,
                resource_uri: resource_uri@,
                data: data@,
            },
            Packet::Market { resource_uri, data } => PacketView::Market {
                resource_uri: resource_uri@,
                data: data@,
            },
        }
    }
}

impl Clone for Packet {
    fn clone(&self) -> (res: Self)
        ensures
            res@ == self@,
    {
        match self {
            Packet::FaaSFunction { to, data } => Packet::FaaSFunction { to: *to, data: data.clone() },
            Packet::FogNode { route_to_stack, resource_uri, data } => {
                let stack = route_to_stack.clone();
                assert(stack@ =~= route_to_stack@);
                Packet::FogNode {
                    route_to_stack: stack,
                    resource_uri: resource_uri.clone(),
                    data: data.clone(),
                }
            },
            Packet::Market { resource_uri, data } => Packet::Market {
                resource_uri: resource_uri.clone(),
                data: data.clone(),
            },
        }
    }
}

/// What the node has to do with a packet it forwards.
#[derive(Debug)]
pub enum ForwardAction {
    /// Send the packet to the routing endpoint of the node at `ip:port`.
    ToRouting { ip: IpAddress, port: u16, packet: Packet },
    /// Send `data` to `resource_uri` of the server at `ip:port`.
    ToUrl { ip: IpAddress, port: u16, resource_uri: String, data: String },
    /// Invoke the function deployed as `function_name` with `payload`.
    InvokeFunction { function_name: String, payload: String },
}

/// A linking step to send on: the JSON text of `linking` is to be forwarded
/// as a [`Packet::FogNode`] along `route_to_stack` to the `route_linking`
/// resource of the next node.
#[derive(Debug)]
pub struct LinkingForward {
    pub route_to_stack: Vec<NodeId>,
    pub linking: RouteLinking,
}

/// Errors of the routing service.
#[derive(Debug, PartialEq, Eq)]
pub enum Error {
    /// The routing to a neighbour failed; its message.
    Routing(String),
    /// The next node is neither a child nor the parent.
    NextNodeDoesntExist(NodeId),
    /// The next node is not part of the routing solution.
    NextNodeIsNotDefined,
    /// The routing stack was malformed and could not be utilized.
    MalformedRoutingStack,
    /// The bid, or function, is not known here.
    UnknownBidId(BidId),
    /// A payload could not be serialized; the message.
    Serialization(String),
    /// OpenFaaS refused the invocation; its message.
    OpenFaas(String),
}

} // verus!

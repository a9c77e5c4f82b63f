//! What a fog node knows of its place in the network: its own identity,
//! its parent (or the market), and the children that registered with it.
use vstd::prelude::*;

use crate::flurry_map::{
    children_contents, children_get, children_insert, children_keys, children_new, ChildrenMap,
};
use crate::ids::NodeId;
use crate::map_updates::{after_updates, lemma_last_update_wins, never_updates};
use crate::net::{IpAddress, NodeDescription};

verus! {

/// How a node is attached to the network.
#[derive(Clone, Copy, Debug, PartialEq, Eq, Structural)]
pub enum NodeCategory {
    /// The node has a parent node.
    NodeConnected { parent_id: NodeId, parent_node_ip: IpAddress, parent_node_port: u16 },
    /// The node is the root of the network and talks to the market directly.
    MarketConnected { market_ip: IpAddress, market_port: u16 },
}

/// The data a node holds about its situation.
#[derive(Debug)]
pub struct NodeSituationData {
    pub situation: NodeCategory,
    pub my_id: NodeId,
    pub tags: Vec<String>,
    pub my_public_ip: IpAddress,
    pub my_public_port: u16,
    /// The children that registered with the node.
    pub children: ChildrenMap,
}

impl NodeSituationData {
    /// The situation of a node that no child has registered with yet.
    pub fn new(
        situation: NodeCategory,
        my_id: NodeId,
        tags: Vec<String>,
        my_public_ip: IpAddress,
        my_public_port: u16,
    ) -> (res: Self)
        ensures
            res.situation == situation,
            res.my_id == my_id,
            res.tags == tags,
            res.my_public_ip == my_public_ip,
            res.my_public_port == my_public_port,
            children_contents(res.children).dom() == Set::<NodeId>::empty(),
    {
        NodeSituationData {
            situation,
            my_id,
            tags,
            my_public_ip,
            my_public_port,
            children: children_new(),
        }
    }
}

/// The neighbour `id` of a node: a registered child, else the parent when
/// `id` names it; `None` when `id` is neither.
pub open spec fn neighbor_of(
    situation: NodeCategory,
    children: Map<NodeId, NodeDescription>,
    id: NodeId,
) -> Option<NodeDescription> {
    if children.dom().contains(id) {
        Some(children[id])
    } else {
        match situation {
            NodeCategory::NodeConnected { parent_id, parent_node_ip, parent_node_port } => {
                if parent_id == id {
                    Some(NodeDescription { ip: parent_node_ip, port: parent_node_port })
                } else {
                    None
                }
            },
            NodeCategory::MarketConnected { .. } => None,
        }
    }
}

/// The parent of a node, if it has one.
pub open spec fn parent_of(situation: NodeCategory) -> Option<NodeId> {
    match situation {
        NodeCategory::NodeConnected { parent_id, .. } => Some(parent_id),
        NodeCategory::MarketConnected { .. } => None,
    }
}

/// The nodes that can host a function for this node: its children and its parent.
pub open spec fn neighbors_of(situation: NodeCategory, children: Map<NodeId, NodeDescription>) -> Set<
    NodeId,
> {
    match situation {
        NodeCategory::NodeConnected { parent_id, .. } => children.dom().insert(parent_id),
        NodeCategory::MarketConnected { .. } => children.dom(),
    }
}

/// Once a child registered, it is reached where it registered from, and it
/// is one of the node's neighbours.
pub proof fn lemma_registered_child_is_neighbor(
    situation: NodeCategory,
    children: Map<NodeId, NodeDescription>,
    id: NodeId,
    description: NodeDescription,
)
    ensures
        neighbor_of(situation, children.insert(id, description), id) == Some(description),
        neighbors_of(situation, children.insert(id, description)).contains(id),
{
}

/// Once a child registered, looking it up finds where it registered from,
/// whatever registrations of other nodes follow, and even when it is also
/// the node's parent: children are looked up first.
pub proof fn lemma_registered_child_found(
    situation: NodeCategory,
    children: Map<NodeId, NodeDescription>,
    id: NodeId,
    description: NodeDescription,
    later: Seq<(NodeId, NodeDescription)>,
)
    requires
        never_updates(later, id),
    ensures
        neighbor_of(situation, after_updates(children.insert(id, description), later), id) == Some(
            description,
        ),
{
    lemma_last_update_wins(children, id, description, later);
}

/// Registering a child changes where no other node is reached.
pub proof fn lemma_register_keeps_others(
    situation: NodeCategory,
    children: Map<NodeId, NodeDescription>,
    id: NodeId,
    description: NodeDescription,
    other: NodeId,
)
    requires
        other != id,
    ensures
        neighbor_of(situation, children.insert(id, description), other) == neighbor_of(
            situation,
            children,
            other,
        ),
{
}

/// A node with a parent can always reach it, and counts it among its
/// neighbours.
pub proof fn lemma_parent_is_neighbor(situation: NodeCategory, children: Map<NodeId, NodeDescription>)
    requires
        situation is NodeConnected,
    ensures
        neighbor_of(situation, children, situation->parent_id) is Some,
        neighbors_of(situation, children).contains(situation->parent_id),
{
}

/// A node is attached to the market exactly when it has no parent.
pub proof fn lemma_market_iff_no_parent(situation: NodeCategory)
    ensures
        (situation is MarketConnected) <==> parent_of(situation) is None,
{
}

/// The situation of the node, kept in memory.
#[derive(Debug)]
pub struct NodeSituationHashSetImpl {
    database: NodeSituationData,
}

/// What a node knows of its situation in the network.
pub trait NodeSituation {
    /// How the node is attached to the network.
    spec fn situation(&self) -> NodeCategory;

    /// The node's own identifier.
    spec fn my_id(&self) -> NodeId;

    /// The tags the node was given.
    spec fn tags(&self) -> Seq<Seq<char>>;

    /// The address the node is reached at.
    spec fn my_public_ip(&self) -> IpAddress;

    /// The port the node is reached at.
    spec fn my_public_port(&self) -> u16;

    /// The registered children and where to reach them.
    spec fn children(&self) -> Map<NodeId, NodeDescription>;

    /// Registers (or re-registers) a child node.
    fn register(&mut self, id: NodeId, description: NodeDescription)
        ensures
            final(self).children() == old(self).children().insert(id, description),
            final(self).situation() == old(self).situation(),
            final(self).my_id() == old(self).my_id(),
            final(self).tags() == old(self).tags(),
            final(self).my_public_ip() == old(self).my_public_ip(),
            final(self).my_public_port() == old(self).my_public_port(),
    ;

    /// Where to reach the neighbour `id`: a child, or the parent.
    fn get_fog_node_neighbor(&self, id: &NodeId) -> (res: Option<NodeDescription>)
        ensures
            res == neighbor_of(self.situation(), self.children(), *id),
    ;

    fn get_my_id(&self) -> (res: NodeId)
        ensures
            res == self.my_id(),
    ;

    fn get_parent_id(&self) -> (res: Option<NodeId>)
        ensures
            res == parent_of(self.situation()),
    ;

    fn get_my_tags(&self) -> (res: Vec<String>)
        ensures
            res.deep_view() == self.tags(),
    ;

    /// Whether the node is the root of the network, attached to the market.
    fn is_market(&self) -> (res: bool)
        ensures
            res == (self.situation() is MarketConnected),
    ;

    fn get_parent_node_address(&self) -> (res: Option<(IpAddress, u16)>)
        ensures
            res == (match self.situation() {
                NodeCategory::NodeConnected { parent_node_ip, parent_node_port, .. } => Some(
                    (parent_node_ip, parent_node_port),
                ),
                NodeCategory::MarketConnected { .. } => None,
            }),
    ;

    fn get_market_node_address(&self) -> (res: Option<(IpAddress, u16)>)
        ensures
            res == (match self.situation() {
                NodeCategory::MarketConnected { market_ip, market_port } => Some(
                    (market_ip, market_port),
                ),
                NodeCategory::NodeConnected { .. } => None,
            }),
    ;

    /// The children, each once and in no stated order, followed by the parent
    /// if there is one.
    fn get_neighbors(&self) -> (res: Vec<NodeId>)
        ensures
            res@.take(self.children().dom().len() as int).no_duplicates(),
            res@.take(self.children().dom().len() as int).to_set() == self.children().dom(),
            res@.to_set() == neighbors_of(self.situation(), self.children()),
            res@.len() == self.children().dom().len() + if self.situation() is NodeConnected {
                1int
            } else {
                0int
            },
            match self.situation() {
                NodeCategory::NodeConnected { parent_id, .. } => res@.last() == parent_id,
                NodeCategory::MarketConnected { .. } => true,
            },
    ;

    fn get_my_public_ip(&self) -> (res: IpAddress)
        ensures
            res == self.my_public_ip(),
    ;

    fn get_my_public_port(&self) -> (res: u16)
        ensures
            res == self.my_public_port(),
    ;
}

impl NodeSituationHashSetImpl {
    pub fn new(situation: NodeSituationData) -> (res: Self)
        ensures
            res.situation() == situation.situation,
            res.my_id() == situation.my_id,
            res.tags() == situation.tags.deep_view(),
            res.my_public_ip() == situation.my_public_ip,
            res.my_public_port() == situation.my_public_port,
            res.children() == children_contents(situation.children),
    {
        NodeSituationHashSetImpl { database: situation }
    }
}

impl NodeSituation for NodeSituationHashSetImpl {
    closed spec fn situation(&self) -> NodeCategory {
        self.database.situation
    }

    closed spec fn my_id(&self) -> NodeId {
        self.database.my_id
    }

    closed spec fn tags(&self) -> Seq<Seq<char>> {
        self.database.tags.deep_view()
    }

    closed spec fn my_public_ip(&self) -> IpAddress {
        self.database.my_public_ip
    }

    closed spec fn my_public_port(&self) -> u16 {
        self.database.my_public_port
    }

    closed spec fn children(&self) -> Map<NodeId, NodeDescription> {
        children_contents(self.database.children)
    }

    fn register(&mut self, id: NodeId, description: NodeDescription) {
        children_insert(&mut self.database.children, id, description);
    }

    fn get_fog_node_neighbor(&self, id: &NodeId) -> Option<NodeDescription> {
        let ret = children_get(&self.database.children, id);
        if ret.is_none() {
            match &self.database.situation {
                NodeCategory::NodeConnected { parent_node_ip, parent_node_port, parent_id } => {
                    if *parent_id == *id {
                        return Some(NodeDescription { ip: *parent_node_ip, port: *parent_node_port });
                    }
                },
                NodeCategory::MarketConnected { .. } => {},
            }
        }
        ret
    }

    fn get_my_id(&self) -> NodeId {
        self.database.my_id
    }

    fn get_parent_id(&self) -> Option<NodeId> {
        match &self.database.situation {
            NodeCategory::NodeConnected { parent_id, .. } => Some(*parent_id),
            _ => None,
        }
    }

    fn get_my_tags(&self) -> Vec<String> {
        let res = self.database.tags.clone();
        proof {
            assert forall|i: int| 0 <= i < res.len() implies #[trigger] res.deep_view()[i]
                == self.database.tags.deep_view()[i] by {
                assert(cloned::<String>(self.database.tags[i], res[i]));
            }
            assert(res.deep_view() =~= self.database.tags.deep_view());
        }
        res
    }

    fn is_market(&self) -> bool {
        match &self.database.situation {
            NodeCategory::MarketConnected { .. } => true,
            _ => false,
        }
    }

    fn get_parent_node_address(&self) -> Option<(IpAddress, u16)> {
        match &self.database.situation {
            NodeCategory::NodeConnected { parent_node_ip, parent_node_port, .. } => Some(
                (*parent_node_ip, *parent_node_port),
            ),
            _ => None,
        }
    }

    fn get_market_node_address(&self) -> Option<(IpAddress, u16)> {
        match &self.database.situation {
            NodeCategory::MarketConnected { market_ip, market_port } => Some(
                (*market_ip, *market_port),
            ),
            _ => None,
        }
    }

    fn get_neighbors(&self) -> Vec<NodeId> {
        let mut ret = children_keys(&self.database.children);
        proof {
            ret@.unique_seq_to_set();
        }
        let ghost keys = ret@;
        match &self.database.situation {
            NodeCategory::NodeConnected { parent_id, .. } => {
                ret.push(*parent_id);
                proof {
                    assert(ret@ == keys.push(*parent_id));
                    assert(ret@.take(keys.len() as int) =~= keys);
                    assert(ret@.to_set() =~= keys.to_set().insert(*parent_id)) by {
                        assert forall|x: NodeId| ret@.to_set().contains(x) <==> keys.to_set().insert(
                            *parent_id,
                        ).contains(x) by {
                            if x == *parent_id {
                                assert(ret@[ret@.len() - 1] == x);
                            } else if keys.contains(x) {
                                let j = choose|j: int| 0 <= j < keys.len() && keys[j] == x;
                                assert(ret@[j] == x);
                            } else if ret@.contains(x) {
                                let j = choose|j: int| 0 <= j < ret@.len() && ret@[j] == x;
                                assert(j < keys.len());
                                assert(keys[j] == x);
                            }
                        }
                    }
                }
            },
            NodeCategory::MarketConnected { .. } => {
                assert(ret@.take(keys.len() as int) =~= keys);
            },
        }
        ret
    }

    fn get_my_public_ip(&self) -> IpAddress {
        self.database.my_public_ip
    }

    fn get_my_public_port(&self) -> u16 {
        self.database.my_public_port
    }
}

} // verus!

//! The concurrent hash maps of `flurry` that hold the node's children and
//! its function routing table.
use vstd::prelude::*;

use crate::ids::{BidId, NodeId};
use crate::net::NodeDescription;
use crate::routing_types::Direction;

verus! {

/// The children of a node, by their identifier.
pub type ChildrenMap = flurry::HashMap<NodeId, NodeDescription>;

/// The routing table of a node, by function identifier.
pub type RoutesMap = flurry::HashMap<BidId, Direction>;

/// `flurry::HashMap`, carried as an opaque value; what it holds is told by
/// [`children_contents`] and [`routes_contents`].
#[verifier::external_type_specification]
#[verifier::external_body]
#[verifier::reject_recursive_types(K)]
#[verifier::reject_recursive_types(V)]
#[verifier::reject_recursive_types(S)]
pub struct ExFlurryHashMap<K, V, S>(flurry::HashMap<K, V, S>);

/// `flurry::DefaultHashBuilder`, the maps' randomly seeded hasher, opaque.
#[verifier::external_type_specification]
#[verifier::external_body]
pub struct ExFlurryDefaultHashBuilder(flurry::DefaultHashBuilder);

/// What a map of children holds: each child node and where to reach it.
pub uninterp spec fn children_contents(map: ChildrenMap) -> Map<
    NodeId,
    NodeDescription,
>;

/// What a routing table holds: for each function, where to send its requests.
pub uninterp spec fn routes_contents(map: RoutesMap) -> Map<
    BidId,
    Direction,
>;

/// `flurry::HashMap::new` creates a map that holds nothing.
#[verifier::external_body]
pub(crate) fn children_new() -> (res: ChildrenMap)
    ensures
        children_contents(res).dom() == Set::<NodeId>::empty(),
{
    flurry::HashMap::new()
}

/// `flurry::HashMapRef::insert` maps the key to the value, replacing any
/// previous value, and leaves the other keys as they were.
#[verifier::external_body]
pub(crate) fn children_insert(
    table: &mut ChildrenMap,
    key: NodeId,
    value: NodeDescription,
)
    ensures
        children_contents(*final(table)) == children_contents(*old(table)).insert(key, value),
{
    table.pin().insert(key, value);
}

/// `flurry::HashMapRef::get` returns the value the key maps to, if any.
#[verifier::external_body]
pub(crate) fn children_get(map: &ChildrenMap, key: &NodeId) -> (res:
    Option<NodeDescription>)
    ensures
        res == (if children_contents(*map).dom().contains(*key) {
            Some(children_contents(*map)[*key])
        } else {
            None
        }),
{
    map.pin().get(key).copied()
}

/// `flurry::HashMapRef::keys` visits every key once, in an order that depends
/// on the map's randomly seeded hasher; only the set of keys is stated.
#[verifier::external_body]
pub(crate) fn children_keys(map: &ChildrenMap) -> (res: Vec<NodeId>)
    ensures
        res@.to_set() == children_contents(*map).dom(),
        res@.no_duplicates(),
{
    map.pin().keys().copied().collect()
}

/// `flurry::HashMap::new` creates a map that holds nothing.
#[verifier::external_body]
pub(crate) fn routes_new() -> (res: RoutesMap)
    ensures
        routes_contents(res).dom() == Set::<BidId>::empty(),
{
    flurry::HashMap::new()
}

/// `flurry::HashMapRef::insert` maps the key to the value, replacing any
/// previous value, and leaves the other keys as they were.
#[verifier::external_body]
pub(crate) fn routes_insert(table: &mut RoutesMap, key: BidId, value: Direction)
    ensures
        routes_contents(*final(table)) == routes_contents(*old(table)).insert(key, value),
{
    table.pin().insert(key, value);
}

/// `flurry::HashMapRef::get` returns the value the key maps to, if any.
#[verifier::external_body]
pub(crate) fn routes_get(map: &RoutesMap, key: &BidId) -> (res: Option<
    Direction,
>)
    ensures
        res == (if routes_contents(*map).dom().contains(*key) {
            Some(routes_contents(*map)[*key])
        } else {
            None
        }),
{
    map.pin().get(key).copied()
}

} // verus!

//! The table that tells, for each function, where its requests go next.
use vstd::prelude::*;

use crate::flurry_map::{routes_contents, routes_get, routes_insert, routes_new, RoutesMap};
use crate::ids::BidId;
use crate::map_updates::{
    after_updates, lemma_last_update_wins, lemma_never_updated_not_held, lookup, never_updates,
};
use crate::routing_types::Direction;

verus! {

/// A routing table of functions.
pub trait FaaSRoutingTable {
    /// The direction recorded for each function.
    spec fn routes(&self) -> Map<BidId, Direction>;

    /// Records `target` as the way to the function of bid `source`.
    fn update(&mut self, source: BidId, target: Direction)
        ensures
            final(self).routes() == old(self).routes().insert(source, target),
    ;

    /// The way to the function of `bid_id`, if one is recorded.
    fn get(&self, bid_id: &BidId) -> (res: Option<Direction>)
        ensures
            res == lookup(self.routes(), *bid_id),
    ;
}

/// The last update of a route wins: once the route to the function of bid
/// `source` is updated to `target`, looking `source` up gives `target`,
/// whatever updates of other functions follow.
pub proof fn lemma_last_route_wins(
    routes: Map<BidId, Direction>,
    source: BidId,
    target: Direction,
    later: Seq<(BidId, Direction)>,
)
    requires
        never_updates(later, source),
    ensures
        lookup(after_updates(routes.insert(source, target), later), source) == Some(target),
{
    lemma_last_update_wins(routes, source, target, later);
}

/// A function whose route was never updated since the table was made has
/// no route.
pub proof fn lemma_unrouted_function(updates: Seq<(BidId, Direction)>, bid: BidId)
    requires
        never_updates(updates, bid),
    ensures
        lookup(after_updates(Map::<BidId, Direction>::empty(), updates), bid) is None,
{
    lemma_never_updated_not_held(updates, bid);
}

/// A routing table held in a concurrent hash map.
#[derive(Debug)]
pub struct FaaSRoutingTableHashMap {
    table: RoutesMap,
}

impl FaaSRoutingTableHashMap {
    pub fn new() -> (res: Self)
        ensures
            res.routes().dom() == Set::<BidId>::empty(),
    {
        FaaSRoutingTableHashMap { table: routes_new() }
    }
}

impl FaaSRoutingTable for FaaSRoutingTableHashMap {
    closed spec fn routes(&self) -> Map<BidId, Direction> {
        routes_contents(self.table)
    }

    fn update(&mut self, source: BidId, target: Direction) {
        routes_insert(&mut self.table, source, target);
    }

    fn get(&self, bid_id: &BidId) -> (res: Option<Direction>) {
        routes_get(&self.table, bid_id)
    }
}

} // verus!

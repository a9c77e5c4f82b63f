//! The market's sealed-bid, second-price auction.
use vstd::prelude::*;

use crate::ids::{BidId, NodeId};

verus! {

/// A bid proposed by a fog node to host a function.
#[derive(Clone, Copy, Debug, PartialEq, Eq)]
pub struct BidProposal {
    /// The node that proposes to host the function.
    pub node_id: NodeId,
    /// The identifier of the bid.
    pub id: BidId,
    /// The amount asked by the node, in the market's smallest currency unit.
    pub bid: u64,
}

/// The winning bid and the price the market pays for it.
#[derive(Clone, Copy, Debug, PartialEq, Eq)]
pub struct ChosenBid {
    pub bid: BidProposal,
    pub price: u64,
}

/// `p` is the lowest amount among the bids of `s` other than the one at index `w`.
pub open spec fn lowest_other_bid(s: Seq<BidProposal>, w: int, p: u64) -> bool {
    &&& exists|j: int| 0 <= j < s.len() && j != w && #[trigger] s[j].bid == p
    &&& forall|j: int| 0 <= j < s.len() && j != w ==> p <= #[trigger] s[j].bid
}

/// `c` is an outcome of a second-price auction over `s`: the winner is one of
/// the lowest bids of `s`, and it is paid the second-lowest amount of `s`
/// (its own amount when it is the only bid).
pub open spec fn second_price_outcome(s: Seq<BidProposal>, c: ChosenBid) -> bool {
    exists|w: int|
        0 <= w < s.len() && #[trigger] s[w] == c.bid && (forall|j: int|
            0 <= j < s.len() ==> c.bid.bid <= #[trigger] s[j].bid) && (if s.len() == 1 {
            c.price == c.bid.bid
        } else {
            lowest_other_bid(s, w, c.price)
        })
}

/// The market never pays less than the winner asked.
pub proof fn lemma_price_not_below_winning_bid(s: Seq<BidProposal>, c: ChosenBid)
    requires
        second_price_outcome(s, c),
    ensures
        c.bid.bid <= c.price,
{
    let w = choose|w: int|
        0 <= w < s.len() && #[trigger] s[w] == c.bid && (forall|j: int|
            0 <= j < s.len() ==> c.bid.bid <= #[trigger] s[j].bid) && (if s.len() == 1 {
            c.price == c.bid.bid
        } else {
            lowest_other_bid(s, w, c.price)
        });
    if s.len() != 1 {
        let j = choose|j: int| 0 <= j < s.len() && j != w && #[trigger] s[j].bid == c.price;
        assert(c.bid.bid <= s[j].bid);
    }
}

/// The winning amount and the price do not depend on which of several
/// equal lowest bids wins: every outcome over the same bids has the same.
pub proof fn lemma_outcome_amounts_determined(s: Seq<BidProposal>, c1: ChosenBid, c2: ChosenBid)
    requires
        second_price_outcome(s, c1),
        second_price_outcome(s, c2),
    ensures
        c1.bid.bid == c2.bid.bid,
        c1.price == c2.price,
{
    let w1 = choose|w: int|
        0 <= w < s.len() && #[trigger] s[w] == c1.bid && (forall|j: int|
            0 <= j < s.len() ==> c1.bid.bid <= #[trigger] s[j].bid) && (if s.len() == 1 {
            c1.price == c1.bid.bid
        } else {
            lowest_other_bid(s, w, c1.price)
        });
    let w2 = choose|w: int|
        0 <= w < s.len() && #[trigger] s[w] == c2.bid && (forall|j: int|
            0 <= j < s.len() ==> c2.bid.bid <= #[trigger] s[j].bid) && (if s.len() == 1 {
            c2.price == c2.bid.bid
        } else {
            lowest_other_bid(s, w, c2.price)
        });
    assert(c1.bid.bid <= s[w2].bid);
    assert(c2.bid.bid <= s[w1].bid);
    if s.len() != 1 {
        let j1 = choose|j: int| 0 <= j < s.len() && j != w1 && #[trigger] s[j].bid == c1.price;
        let j2 = choose|j: int| 0 <= j < s.len() && j != w2 && #[trigger] s[j].bid == c2.price;
        if w1 == w2 {
            assert(c1.price <= s[j2].bid);
            assert(c2.price <= s[j1].bid);
        } else {
            assert(c1.price <= s[w2].bid);
            assert(c2.price <= s[w1].bid);
            assert(c1.bid.bid <= s[j1].bid);
            assert(c2.bid.bid <= s[j2].bid);
        }
    }
}

proof fn lemma_in_rest(s: Seq<BidProposal>, w: int, x: BidProposal)
    requires
        0 <= w < s.len(),
        s.remove(w).contains(x),
    ensures
        exists|j: int| 0 <= j < s.len() && j != w && #[trigger] s[j] == x,
{
    let k = choose|k: int| 0 <= k < s.remove(w).len() && s.remove(w)[k] == x;
    if k < w {
        assert(s[k] == x);
    } else {
        assert(s[k + 1] == x);
    }
}

proof fn lemma_rest_holds(s: Seq<BidProposal>, w: int, j: int)
    requires
        0 <= w < s.len(),
        0 <= j < s.len(),
        j != w,
    ensures
        s.remove(w).contains(s[j]),
{
    if j < w {
        assert(s.remove(w)[j] == s[j]);
    } else {
        assert(s.remove(w)[j - 1] == s[j]);
    }
}

/// The outcome of the auction does not depend on the order in which the
/// bids arrived.
pub proof fn lemma_outcome_order_independent(
    s1: Seq<BidProposal>,
    s2: Seq<BidProposal>,
    c: ChosenBid,
)
    requires
        s1.to_multiset() == s2.to_multiset(),
        second_price_outcome(s1, c),
    ensures
        second_price_outcome(s2, c),
{
    broadcast use vstd::seq_lib::group_to_multiset_ensures;

    s1.to_multiset_ensures();
    s2.to_multiset_ensures();
    assert(s1.len() == s2.len());
    let w1 = choose|w: int|
        0 <= w < s1.len() && #[trigger] s1[w] == c.bid && (forall|j: int|
            0 <= j < s1.len() ==> c.bid.bid <= #[trigger] s1[j].bid) && (if s1.len() == 1 {
            c.price == c.bid.bid
        } else {
            lowest_other_bid(s1, w, c.price)
        });
    assert(s1[w1] == c.bid);
    assert(s1.contains(c.bid));
    assert(s1.to_multiset().count(c.bid) > 0);
    assert(s2.to_multiset().count(c.bid) > 0);
    assert(s2.contains(c.bid));
    let w2 = choose|w: int| 0 <= w < s2.len() && s2[w] == c.bid;
    assert forall|j: int| 0 <= j < s2.len() implies c.bid.bid <= #[trigger] s2[j].bid by {
        assert(s2.contains(s2[j]));
        assert(s2.to_multiset().count(s2[j]) > 0);
        assert(s1.to_multiset().count(s2[j]) > 0);
        assert(s1.contains(s2[j]));
        let m = choose|m: int| 0 <= m < s1.len() && s1[m] == s2[j];
        assert(c.bid.bid <= s1[m].bid);
    }
    if s1.len() != 1 {
        let r1 = s1.remove(w1);
        let r2 = s2.remove(w2);
        assert(r1.to_multiset() == s1.to_multiset().remove(c.bid));
        assert(r2.to_multiset() == s2.to_multiset().remove(c.bid));
        assert forall|j: int| 0 <= j < s2.len() && j != w2 implies c.price <= #[trigger] s2[j].bid by {
            lemma_rest_holds(s2, w2, j);
            assert(r2.to_multiset().count(s2[j]) > 0);
            assert(r1.contains(s2[j]));
            lemma_in_rest(s1, w1, s2[j]);
            let m = choose|m: int| 0 <= m < s1.len() && m != w1 && #[trigger] s1[m] == s2[j];
            assert(c.price <= s1[m].bid);
        }
        let j1 = choose|j: int| 0 <= j < s1.len() && j != w1 && #[trigger] s1[j].bid == c.price;
        lemma_rest_holds(s1, w1, j1);
        assert(r1.to_multiset().count(s1[j1]) > 0);
        assert(r2.contains(s1[j1]));
        lemma_in_rest(s2, w2, s1[j1]);
        let j2 = choose|j: int| 0 <= j < s2.len() && j != w2 && #[trigger] s2[j] == s1[j1];
        assert(s2[j2].bid == c.price);
        assert(lowest_other_bid(s2, w2, c.price));
    }
    assert(s2[w2] == c.bid);
}

/// The auction process of the market.
pub struct Auction;

impl Auction {
    pub fn new() -> (res: Self) {
        Auction
    }

    /// Runs a second-price auction: the lowest bid wins and is paid the
    /// second-lowest amount, or its own amount when it is alone.
    /// There is no winner when there is no bid.
    pub fn auction(&self, bids: &[BidProposal]) -> (res: Option<ChosenBid>)
        ensures
            res is None <==> bids@.len() == 0,
            res matches Some(c) ==> second_price_outcome(bids@, c),
    {
        let n = bids.len();
        if n == 0 {
            return None;
        }
        // The first of the lowest bids.
        let mut w: usize = 0;
        let mut i: usize = 1;
        while i < n
            invariant
                n == bids@.len(),
                0 <= w < i <= n,
                forall|j: int| 0 <= j < i ==> bids@[w as int].bid <= #[trigger] bids@[j].bid,
            decreases n - i,
        {
            if bids[i].bid < bids[w].bid {
                w = i;
            }
            i = i + 1;
        }
        let winner = bids[w];
        if n == 1 {
            return Some(ChosenBid { bid: winner, price: winner.bid });
        }
        // The lowest amount among the other bids.
        let mut o: usize = if w == 0 { 1 } else { 0 };
        let mut k: usize = 0;
        while k < n
            invariant
                n == bids@.len(),
                n >= 2,
                w < n,
                o < n,
                o != w,
                forall|j: int| 0 <= j < k && j != w ==> bids@[o as int].bid <= #[trigger] bids@[j].bid,
            decreases n - k,
        {
            if k != w && bids[k].bid < bids[o].bid {
                o = k;
            }
            k = k + 1;
        }
        let res = ChosenBid { bid: winner, price: bids[o].bid };
        assert(bids@[o as int].bid == res.price);
        assert(lowest_other_bid(bids@, w as int, res.price));
        assert(bids@[w as int] == res.bid);
        Some(res)
    }
}

} // verus!

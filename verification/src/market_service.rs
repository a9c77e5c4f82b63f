//! The market's auction service: calls for bids from the network, runs the
//! auction, and has the winning node provision the function.
use vstd::prelude::*;

use crate::faas::Sla;
use std::collections::HashMap;

use crate::ids::{BidId, NodeId};
use crate::market_auction::{second_price_outcome, Auction as AuctionRepository, BidProposal, ChosenBid};
use crate::net::IpAddress;

verus! {

/// The bids gathered from the network for an agreement.
#[derive(Debug, Clone)]
pub struct BidProposals {
    pub bids: Vec<BidProposal>,
}

/// The outcome of an auction.
#[derive(Debug, Clone, Copy)]
pub struct AuctionResult {
    pub chosen_bid: ChosenBid,
}

/// What the market knows of a fog node.
#[derive(Debug, Clone)]
pub struct NodeRecord {
    pub ip: IpAddress,
    pub port_faas: u16,
    pub tags: Vec<String>,
    /// The bids the node won, by bid.
    pub accepted_bids: HashMap<BidId, AcceptedBid>,
}

/// The winning bid, with where its function is served.
#[derive(Debug, Clone, Copy)]
pub struct InstanciatedBid {
    pub bid: BidProposal,
    pub price: u64,
    pub ip: IpAddress,
    pub port: u16,
}

/// An accepted bid, with the proposals it won against and its agreement.
#[derive(Debug, Clone)]
pub struct AcceptedBid {
    pub chosen: InstanciatedBid,
    pub proposals: BidProposals,
    pub sla: Sla,
}

/// Why an auction did not end with a provisioned function.
#[derive(Debug, Clone, PartialEq, Eq)]
pub enum AuctionError {
    /// The network could not be called for bids; the message.
    CallForBids(String),
    /// No bid was made: the auction has no winner.
    NoWinner,
    /// The winner could not provision the function.
    ProvisioningFailed,
}

/// Where an auction stands.
#[derive(Debug)]
pub enum AuctionState {
    /// The bids for `sla` have been called for.
    AwaitingBids { sla: Sla },
    /// The auction was won by `chosen_bid`; the winner's record is awaited.
    AwaitingNode { proposals: BidProposals, chosen_bid: ChosenBid, sla: Sla },
    /// The winner has been asked to provision `accepted`.
    AwaitingProvisioning { accepted: AcceptedBid },
    /// The function was provisioned for `accepted`.
    Accepted { accepted: AcceptedBid },
    /// The auction failed.
    Failed { error: AuctionError },
}

/// What happened while the auction waited.
#[derive(Debug)]
pub enum AuctionEvent {
    /// The network answered the call for bids.
    Bids { proposals: Result<BidProposals, String> },
    /// The market's record of the winner, if it has one.
    Node { record: Option<NodeRecord> },
    /// The winner answered the provisioning request.
    Provisioned { outcome: Result<(), String> },
}

/// What the market has to do next.
#[derive(Debug, PartialEq, Eq)]
pub enum AuctionAction {
    /// Call the network for bids, starting at `to`, for the agreement of the state.
    CallForBids { to: NodeId },
    /// Look up the record of the node `node_id`.
    GetNode { node_id: NodeId },
    /// Ask the winner to provision the accepted bid of the state.
    Provision,
    /// Nothing: the auction is over.
    Finish,
}

/// The accepted bid for `chosen_bid`, served at `record`.
pub open spec fn accepted_for(
    proposals: BidProposals,
    chosen_bid: ChosenBid,
    sla: Sla,
    record: NodeRecord,
) -> AcceptedBid {
    AcceptedBid {
        chosen: InstanciatedBid {
            bid: chosen_bid.bid,
            price: chosen_bid.price,
            ip: record.ip,
            port: record.port_faas,
        },
        proposals,
        sla,
    }
}

/// The bid accepted at the end of an auction pays the winner no less than
/// it asked.
pub proof fn lemma_accepted_price_not_below_bid(
    proposals: BidProposals,
    chosen_bid: ChosenBid,
    sla: Sla,
    record: NodeRecord,
)
    requires
        second_price_outcome(proposals.bids@, chosen_bid),
    ensures
        accepted_for(proposals, chosen_bid, sla, record).chosen.bid.bid <= accepted_for(
            proposals,
            chosen_bid,
            sla,
            record,
        ).chosen.price,
{
    crate::market_auction::lemma_price_not_below_winning_bid(proposals.bids@, chosen_bid);
}

/// The accepted bid carries the winning bid exactly as the auction chose it,
/// at the price the auction set, served where the market's record of the
/// winner says; the winning bid is one of the proposals, asks no more than
/// any of them, and is kept with them and with the agreement.
pub proof fn lemma_accepted_bid_is_the_winner(
    proposals: BidProposals,
    chosen_bid: ChosenBid,
    sla: Sla,
    record: NodeRecord,
)
    requires
        second_price_outcome(proposals.bids@, chosen_bid),
    ensures
        ({
            let accepted = accepted_for(proposals, chosen_bid, sla, record);
            &&& accepted.chosen.bid == chosen_bid.bid
            &&& accepted.chosen.price == chosen_bid.price
            &&& accepted.chosen.ip == record.ip
            &&& accepted.chosen.port == record.port_faas
            &&& exists|w: int|
                0 <= w < proposals.bids@.len() && #[trigger] proposals.bids@[w]
                    == accepted.chosen.bid
            &&& forall|j: int|
                0 <= j < proposals.bids@.len() ==> accepted.chosen.bid.bid
                    <= #[trigger] proposals.bids@[j].bid
            &&& accepted.proposals == proposals
            &&& accepted.sla == sla
        }),
{
}

/// The auction service of the market.
pub struct Auction {
    auction_process: AuctionRepository,
}

impl Auction {
    pub fn new(auction_process: AuctionRepository) -> (res: Self) {
        Auction { auction_process }
    }

    /// Runs the auction over the proposals; fails when there is no bid.
    pub fn do_auction(&self, proposals: &BidProposals) -> (res: Result<AuctionResult, AuctionError>)
        ensures
            proposals.bids@.len() == 0 <==> res is Err,
            res is Err ==> res == Err::<AuctionResult, AuctionError>(AuctionError::NoWinner),
            res matches Ok(r) ==> second_price_outcome(proposals.bids@, r.chosen_bid),
    {
        match self.auction_process.auction(proposals.bids.as_slice()) {
            Some(chosen_bid) => Ok(AuctionResult { chosen_bid }),
            None => Err(AuctionError::NoWinner),
        }
    }

    /// The accepted bid for the winner, once the market's record of the
    /// winning node is known; nothing when the market has no record of it.
    pub fn process_provisioning_details(
        &self,
        proposals: BidProposals,
        chosen_bid: ChosenBid,
        sla: Sla,
        record: Option<NodeRecord>,
    ) -> (res: Option<AcceptedBid>)
        ensures
            match record {
                None => res is None,
                Some(r) => res == Some(accepted_for(proposals, chosen_bid, sla, r)),
            },
    {
        match record {
            None => None,
            Some(NodeRecord { ip, port_faas, .. }) => Some(
                AcceptedBid {
                    chosen: InstanciatedBid {
                        bid: chosen_bid.bid,
                        price: chosen_bid.price,
                        ip,
                        port: port_faas,
                    },
                    proposals,
                    sla,
                },
            ),
        }
    }

    /// Starts an auction for `sla`: the network is called for bids from
    /// `target_node`.
    pub fn start_auction(&self, target_node: NodeId, sla: Sla) -> (res: (AuctionState, AuctionAction))
        ensures
            res.0 == (AuctionState::AwaitingBids { sla }),
            res.1 == (AuctionAction::CallForBids { to: target_node }),
    {
        (AuctionState::AwaitingBids { sla }, AuctionAction::CallForBids { to: target_node })
    }

    /// The next state of an auction, and what to do, once `event` happened.
    /// The bids received are auctioned; the winner's record is looked up;
    /// the function is provisioned on the winner. An auction fails when the
    /// network cannot be called for bids, when no bid is made, and when the
    /// winner cannot provision the function (whether the market has no
    /// record of it or its provisioning fails). An event that does not
    /// answer what the state awaits leaves the state as it is.
    pub fn step(&self, state: AuctionState, event: AuctionEvent) -> (res: (AuctionState, AuctionAction))
        ensures
            match (state, event) {
                (AuctionState::AwaitingBids { sla }, AuctionEvent::Bids { proposals }) => match proposals {
                    Err(msg) => res.0 == (AuctionState::Failed {
                        error: AuctionError::CallForBids(msg),
                    }) && res.1 == AuctionAction::Finish,
                    Ok(p) => if p.bids@.len() == 0 {
                        res.0 == (AuctionState::Failed { error: AuctionError::NoWinner })
                            && res.1 == AuctionAction::Finish
                    } else {
                        res.0 matches AuctionState::AwaitingNode { proposals, chosen_bid, sla: s }
                            && proposals == p && s == sla && second_price_outcome(p.bids@, chosen_bid)
                            && res.1 == (AuctionAction::GetNode { node_id: chosen_bid.bid.node_id })
                    },
                },
                (
                    AuctionState::AwaitingNode { proposals, chosen_bid, sla },
                    AuctionEvent::Node { record },
                ) => match record {
                    None => res.0 == (AuctionState::Failed {
                        error: AuctionError::ProvisioningFailed,
                    }) && res.1 == AuctionAction::Finish,
                    Some(r) => res.0 == (AuctionState::AwaitingProvisioning {
                        accepted: accepted_for(proposals, chosen_bid, sla, r),
                    }) && res.1 == AuctionAction::Provision,
                },
                (
                    AuctionState::AwaitingProvisioning { accepted },
                    AuctionEvent::Provisioned { outcome },
                ) => match outcome {
                    Ok(()) => res.0 == (AuctionState::Accepted { accepted }) && res.1
                        == AuctionAction::Finish,
                    Err(_) => res.0 == (AuctionState::Failed {
                        error: AuctionError::ProvisioningFailed,
                    }) && res.1 == AuctionAction::Finish,
                },
                (s, _) => res.0 == s && res.1 == AuctionAction::Finish,
            },
    {
        match (state, event) {
            (AuctionState::AwaitingBids { sla }, AuctionEvent::Bids { proposals }) => match proposals {
                Err(msg) => (
                    AuctionState::Failed { error: AuctionError::CallForBids(msg) },
                    AuctionAction::Finish,
                ),
                Ok(p) => match self.do_auction(&p) {
                    Err(e) => (AuctionState::Failed { error: e }, AuctionAction::Finish),
                    Ok(AuctionResult { chosen_bid }) => {
                        let node_id = chosen_bid.bid.node_id;
                        (
                            AuctionState::AwaitingNode { proposals: p, chosen_bid, sla },
                            AuctionAction::GetNode { node_id },
                        )
                    },
                },
            },
            (AuctionState::AwaitingNode { proposals, chosen_bid, sla }, AuctionEvent::Node { record }) => {
                match self.process_provisioning_details(proposals, chosen_bid, sla, record) {
                    None => (
                        AuctionState::Failed { error: AuctionError::ProvisioningFailed },
                        AuctionAction::Finish,
                    ),
                    Some(accepted) => (
                        AuctionState::AwaitingProvisioning { accepted },
                        AuctionAction::Provision,
                    ),
                }
            },
            (AuctionState::AwaitingProvisioning { accepted }, AuctionEvent::Provisioned { outcome }) => {
                match outcome {
                    Ok(()) => (AuctionState::Accepted { accepted }, AuctionAction::Finish),
                    Err(_) => (
                        AuctionState::Failed { error: AuctionError::ProvisioningFailed },
                        AuctionAction::Finish,
                    ),
                }
            },
            (s, _) => (s, AuctionAction::Finish),
        }
    }
}

} // verus!

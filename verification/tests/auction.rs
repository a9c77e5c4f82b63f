use manager::faas::Sla;
use manager::market_auction::{Auction, BidProposal, ChosenBid};
use manager::market_service::{
    AcceptedBid, Auction as AuctionService, AuctionAction, AuctionError, AuctionEvent,
    AuctionState, BidProposals, NodeRecord,
};
use manager::net::IpAddress;
use std::collections::HashMap;

fn bid(node_id: u128, id: u128, amount: u64) -> BidProposal {
    BidProposal { node_id, id, bid: amount }
}

fn sla() -> Sla {
    Sla {
        id: 42,
        function_live_name: "echo".to_string(),
        function_image: "ghcr.io/echo:latest".to_string(),
        memory: "256Mi".to_string(),
        cpu: "100m".to_string(),
    }
}

#[test]
fn lowest_bid_wins_at_second_price() {
    let bids = vec![bid(1, 10, 5), bid(2, 11, 3), bid(3, 12, 7)];
    let chosen = Auction::new().auction(&bids).unwrap();
    assert_eq!(chosen, ChosenBid { bid: bid(2, 11, 3), price: 5 });
}

#[test]
fn single_bid_wins_at_its_own_price() {
    let bids = vec![bid(1, 10, 9)];
    let chosen = Auction::new().auction(&bids).unwrap();
    assert_eq!(chosen, ChosenBid { bid: bid(1, 10, 9), price: 9 });
}

#[test]
fn no_bid_no_winner() {
    assert_eq!(Auction::new().auction(&[]), None);
}

#[test]
fn tied_lowest_bids_pay_the_tied_amount() {
    let bids = vec![bid(1, 10, 4), bid(2, 11, 4), bid(3, 12, 8)];
    let chosen = Auction::new().auction(&bids).unwrap();
    assert_eq!(chosen.bid.bid, 4);
    assert_eq!(chosen.price, 4);
    assert!(chosen.bid.id == 10 || chosen.bid.id == 11);
}

#[test]
fn price_never_below_winning_bid() {
    let bids = vec![bid(1, 1, 100), bid(2, 2, 1), bid(3, 3, 50), bid(4, 4, 2)];
    let chosen = Auction::new().auction(&bids).unwrap();
    assert!(chosen.bid.bid <= chosen.price);
    assert_eq!(chosen.price, 2);
}

#[test]
fn order_of_bids_does_not_change_the_amounts() {
    let a = Auction::new().auction(&[bid(1, 1, 8), bid(2, 2, 6), bid(3, 3, 9)]).unwrap();
    let b = Auction::new().auction(&[bid(3, 3, 9), bid(1, 1, 8), bid(2, 2, 6)]).unwrap();
    assert_eq!(a.price, b.price);
    assert_eq!(a.bid, b.bid);
}

fn record(ip: u32, port_faas: u16) -> NodeRecord {
    NodeRecord { ip: IpAddress::V4(ip), port_faas, tags: vec![], accepted_bids: HashMap::new() }
}

#[test]
fn auction_runs_to_acceptance() {
    let service = AuctionService::new(Auction::new());
    let (state, action) = service.start_auction(7, sla());
    assert_eq!(action, AuctionAction::CallForBids { to: 7 });
    let proposals = BidProposals { bids: vec![bid(1, 10, 5), bid(2, 11, 3)] };
    let (state, action) =
        service.step(state, AuctionEvent::Bids { proposals: Ok(proposals) });
    assert_eq!(action, AuctionAction::GetNode { node_id: 2 });
    let (state, action) =
        service.step(state, AuctionEvent::Node { record: Some(record(0x0a000002, 8080)) });
    assert_eq!(action, AuctionAction::Provision);
    let accepted: AcceptedBid = match &state {
        AuctionState::AwaitingProvisioning { accepted } => accepted.clone(),
        other => panic!("unexpected state {:?}", other),
    };
    assert_eq!(accepted.chosen.price, 5);
    assert_eq!(accepted.chosen.bid.id, 11);
    assert_eq!(accepted.chosen.ip, IpAddress::V4(0x0a000002));
    assert_eq!(accepted.chosen.port, 8080);
    assert_eq!(accepted.sla.id, 42);
    assert_eq!(accepted.proposals.bids.len(), 2);
    let (state, action) = service.step(state, AuctionEvent::Provisioned { outcome: Ok(()) });
    assert_eq!(action, AuctionAction::Finish);
    assert!(matches!(state, AuctionState::Accepted { accepted } if accepted.chosen.price == 5));
}

#[test]
fn auction_fails_when_bids_cannot_be_called() {
    let service = AuctionService::new(Auction::new());
    let (state, _) = service.start_auction(7, sla());
    let (state, action) =
        service.step(state, AuctionEvent::Bids { proposals: Err("unreachable".to_string()) });
    assert_eq!(action, AuctionAction::Finish);
    assert!(matches!(state, AuctionState::Failed { error: AuctionError::CallForBids(m) } if m == "unreachable"));
}

#[test]
fn auction_fails_without_bids() {
    let service = AuctionService::new(Auction::new());
    let (state, _) = service.start_auction(7, sla());
    let (state, _) =
        service.step(state, AuctionEvent::Bids { proposals: Ok(BidProposals { bids: vec![] }) });
    assert!(matches!(state, AuctionState::Failed { error: AuctionError::NoWinner }));
    let proposals = BidProposals { bids: vec![] };
    assert_eq!(service.do_auction(&proposals).unwrap_err(), AuctionError::NoWinner);
}

#[test]
fn auction_fails_when_winner_is_unknown() {
    let service = AuctionService::new(Auction::new());
    let (state, _) = service.start_auction(7, sla());
    let proposals = BidProposals { bids: vec![bid(1, 10, 5)] };
    let (state, _) = service.step(state, AuctionEvent::Bids { proposals: Ok(proposals) });
    let (state, action) = service.step(state, AuctionEvent::Node { record: None });
    assert_eq!(action, AuctionAction::Finish);
    assert!(matches!(state, AuctionState::Failed { error: AuctionError::ProvisioningFailed }));
}

#[test]
fn auction_fails_when_provisioning_fails() {
    let service = AuctionService::new(Auction::new());
    let (state, _) = service.start_auction(7, sla());
    let proposals = BidProposals { bids: vec![bid(1, 10, 5)] };
    let (state, _) = service.step(state, AuctionEvent::Bids { proposals: Ok(proposals) });
    let (state, _) = service.step(state, AuctionEvent::Node { record: Some(record(1, 2)) });
    let (state, _) =
        service.step(state, AuctionEvent::Provisioned { outcome: Err("refused".to_string()) });
    assert!(matches!(state, AuctionState::Failed { error: AuctionError::ProvisioningFailed }));
}

#[test]
fn unexpected_event_leaves_the_state() {
    let service = AuctionService::new(Auction::new());
    let (state, _) = service.start_auction(7, sla());
    let (state, action) = service.step(state, AuctionEvent::Provisioned { outcome: Ok(()) });
    assert_eq!(action, AuctionAction::Finish);
    assert!(matches!(state, AuctionState::AwaitingBids { sla } if sla.id == 42));
}

#[test]
fn provisioning_details_need_the_node_record() {
    let service = AuctionService::new(Auction::new());
    let chosen = ChosenBid { bid: bid(1, 10, 5), price: 6 };
    let proposals = BidProposals { bids: vec![bid(1, 10, 5), bid(2, 11, 6)] };
    assert!(service
        .process_provisioning_details(proposals.clone(), chosen, sla(), None)
        .is_none());
    let accepted = service
        .process_provisioning_details(proposals, chosen, sla(), Some(record(3, 31112)))
        .unwrap();
    assert_eq!(accepted.chosen.port, 31112);
    assert_eq!(accepted.chosen.price, 6);
}

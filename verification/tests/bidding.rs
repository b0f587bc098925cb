use name_auction::auction::Phase;
use name_auction::encoding::{eligibility_slot, ELIGIBILITY_MODULUS};
use name_auction::registrar::{Call, Registrar};

fn alice() -> String {
    "alice.near".to_string()
}

fn bob() -> String {
    "bob.near".to_string()
}

fn carol() -> String {
    "carol.near".to_string()
}

fn auctioned_id() -> String {
    "auctioned_id1.near".to_string()
}

fn call(caller: String, now: u64, attached: u128) -> Call {
    Call { now, caller, attached }
}

#[test]
fn test_initialize_new_registrar_and_bid() {
    let mut contract = Registrar::new(2, 30, 35);
    let commitment = "test1test2test3hashCommitment";
    assert_eq!(
        contract.bid(&call(carol(), 1321, 0), auctioned_id(), commitment.as_bytes().to_vec()),
        true
    );
}

#[test]
fn test_another_bid() {
    let mut contract = Registrar::new(2, 30, 35);
    let commitment = "test1test2test3hashCommitment";
    assert_eq!(
        contract.bid(&call(bob(), 1321, 0), auctioned_id(), commitment.as_bytes().to_vec()),
        true
    );
}

#[test]
fn withdraw_after_all_revealed() {
    let mut contract = Registrar::new(2, 30, 35);
    let commitment = "2s7YSBAHei";
    contract.bid(&call(carol(), 1292, 0), auctioned_id(), commitment.as_bytes().to_vec());
    let commitment2 = "2s7YSJaE4S";
    contract.bid(&call(bob(), 1292, 0), auctioned_id(), commitment2.as_bytes().to_vec());

    let masked_amount: u128 = 1000;
    let salt: String = "123".to_string();
    contract.reveal_bid(&call(carol(), 1322, 1000), auctioned_id(), masked_amount, salt);

    let masked_amount2: u128 = 1005;
    let salt2: String = "123".to_string();
    contract.reveal_bid(&call(bob(), 1322, 1005), auctioned_id(), masked_amount2, salt2);

    assert_eq!(contract.withdraw(&call(bob(), 1322, 1005), auctioned_id()).is_some(), true);
}

#[test]
fn a_new_registrar_keeps_its_schedule_and_no_auction() {
    let contract = Registrar::new(2, 30, 35);
    assert_eq!(contract.launch_tick(), 2);
    assert_eq!(contract.bid_period(), 30);
    assert_eq!(contract.reveal_period(), 35);
    assert!(contract.auction(&auctioned_id()).is_none());
}

#[test]
fn the_slot_of_a_name_is_its_hash_modulo_52() {
    assert_eq!(ELIGIBILITY_MODULUS, 52);
    assert_eq!(eligibility_slot(&auctioned_id()), 43);
    assert!(eligibility_slot(&alice()) < 52);
    assert!(eligibility_slot(&String::new()) < 52);
}

#[test]
fn bid_with_commitment() {
    let mut contract = Registrar::new(2, 30, 35);
    let commitment = "2s7YSBAHei";
    assert_eq!(
        contract.bid(&call(carol(), 1292, 0), auctioned_id(), commitment.as_bytes().to_vec()),
        true
    );
    let auction = contract.auction(&auctioned_id()).unwrap();
    assert_eq!(auction.start_tick(), 1292);
    assert_eq!(auction.bidder_count(), 1);
    assert_eq!(auction.revealer_count(), 0);
    let bid = auction.bid_for(&carol()).unwrap();
    assert_eq!(bid.amount(), 0);
    assert_eq!(bid.commitment(), &commitment.as_bytes().to_vec());
}

#[test]
fn is_not_open_for_auction_min() {
    let mut contract = Registrar::new(2, 30, 35);
    let commitment = "2s7YSBAHei";
    assert_eq!(
        contract.bid(&call(alice(), 4, 0), auctioned_id(), commitment.as_bytes().to_vec()),
        false
    );
    assert!(contract.auction(&auctioned_id()).is_none());
}

#[test]
fn is_not_open_for_auction_max() {
    let mut contract = Registrar::new(2, 30, 35);
    let commitment = "2s7YSBAHei";
    assert_eq!(
        contract.bid(&call(alice(), 1322, 0), auctioned_id(), commitment.as_bytes().to_vec()),
        false
    );
    assert!(contract.auction(&auctioned_id()).is_none());
}

#[test]
fn a_first_bid_is_taken_in_the_period_of_the_slot_and_in_no_other() {
    for period in 0u64..120 {
        for offset in [0u64, 1, 29] {
            let mut contract = Registrar::new(2, 30, 35);
            let now = 2 + period * 30 + offset;
            let taken = contract.bid(&call(carol(), now, 0), auctioned_id(), vec![1, 2, 3]);
            assert_eq!(taken, period == 43, "period {} offset {}", period, offset);
        }
    }
}

#[test]
fn the_slot_handed_in_decides_a_first_bid() {
    let mut contract = Registrar::new(100, 10, 5);
    assert!(!contract.bid_in_slot(&call(carol(), 129, 0), auctioned_id(), vec![7], 3));
    assert!(!contract.bid_in_slot(&call(carol(), 140, 0), auctioned_id(), vec![7], 3));
    assert!(contract.bid_in_slot(&call(carol(), 139, 0), auctioned_id(), vec![7], 3));
    assert!(contract.eligible_at(130, 3));
    assert!(!contract.eligible_at(130, 2));
}

#[test]
fn no_first_bid_before_the_launch() {
    let mut contract = Registrar::new(100, 10, 5);
    assert!(!contract.bid_in_slot(&call(carol(), 99, 0), auctioned_id(), vec![7], 0));
    assert!(contract.bid_in_slot(&call(carol(), 100, 0), auctioned_id(), vec![7], 0));
}

#[test]
fn no_first_bid_with_a_bid_period_of_zero() {
    let mut contract = Registrar::new(0, 0, 5);
    for slot in 0u64..52 {
        assert!(!contract.bid_in_slot(&call(carol(), 0, 0), auctioned_id(), vec![7], slot));
        assert!(!contract.bid_in_slot(&call(carol(), 1000, 0), auctioned_id(), vec![7], slot));
    }
}

#[test]
fn bidder_already_bid() {
    let mut contract = Registrar::new(2, 30, 35);
    let commitment = "2s7YSBAHei";
    contract.bid(&call(carol(), 1292, 0), auctioned_id(), commitment.as_bytes().to_vec());

    let commitment2 = "2s7YSBAHei2";
    assert_eq!(
        contract.bid(&call(carol(), 1292, 0), auctioned_id(), commitment2.as_bytes().to_vec()),
        false
    );
    assert_eq!(
        contract.bid(&call(carol(), 1300, 0), auctioned_id(), commitment2.as_bytes().to_vec()),
        false
    );
    let auction = contract.auction(&auctioned_id()).unwrap();
    assert_eq!(auction.bidder_count(), 1);
    let bid = auction.bid_for(&carol()).unwrap();
    assert_eq!(bid.amount(), 0);
    assert_eq!(bid.commitment(), &commitment.as_bytes().to_vec());
}

#[test]
fn auction_is_expired() {
    let mut contract = Registrar::new(2, 30, 35);
    let commitment = "2s7YSBAHei";
    contract.bid(&call(carol(), 1292, 0), auctioned_id(), commitment.as_bytes().to_vec());

    let commitment2 = "2s7YSBAHei2";
    assert_eq!(
        contract.bid(&call(bob(), 1322, 0), auctioned_id(), commitment2.as_bytes().to_vec()),
        false
    );
    assert!(!contract.auction(&auctioned_id()).unwrap().has_bid(&bob()));
}

#[test]
fn a_second_party_bids_until_the_bid_period_has_elapsed() {
    let mut contract = Registrar::new(2, 30, 35);
    assert!(contract.bid(&call(carol(), 1319, 0), auctioned_id(), vec![1]));
    // Tick 1322 lies in the next schedule period: the slot matters for the
    // first bid only.
    assert!(contract.bid(&call(bob(), 1322, 0), auctioned_id(), vec![2]));
    assert!(contract.bid(&call(alice(), 1348, 0), auctioned_id(), vec![3]));
    assert!(!contract.bid(&call("dave.near".to_string(), 1349, 0), auctioned_id(), vec![4]));
    let auction = contract.auction(&auctioned_id()).unwrap();
    assert_eq!(auction.bidder_count(), 3);
    assert_eq!(auction.start_tick(), 1319);
    assert_eq!(auction.bid_for(&bob()).unwrap().commitment(), &vec![2u8]);
}

#[test]
fn an_empty_commitment_is_a_bid_like_any_other() {
    let mut contract = Registrar::new(2, 30, 35);
    assert!(contract.bid(&call(carol(), 1292, 0), auctioned_id(), Vec::new()));
    assert!(!contract.bid(&call(carol(), 1293, 0), auctioned_id(), vec![1]));
    let auction = contract.auction(&auctioned_id()).unwrap();
    assert!(auction.has_bid(&carol()));
    assert!(auction.bid_for(&carol()).unwrap().commitment().is_empty());
}

#[test]
fn the_phase_follows_the_clock_and_the_reveals() {
    let mut contract = Registrar::new(2, 30, 35);
    contract.bid(&call(carol(), 1292, 0), auctioned_id(), "2s7YSBAHei".as_bytes().to_vec());
    contract.bid(&call(bob(), 1292, 0), auctioned_id(), "2s7YSJaE4S".as_bytes().to_vec());
    {
        let auction = contract.auction(&auctioned_id()).unwrap();
        assert_eq!(auction.phase(30, 35, 1000), Phase::Bidding);
        assert_eq!(auction.phase(30, 35, 1292), Phase::Bidding);
        assert_eq!(auction.phase(30, 35, 1321), Phase::Bidding);
        assert_eq!(auction.phase(30, 35, 1322), Phase::Revealing);
        assert_eq!(auction.phase(30, 35, 1356), Phase::Revealing);
        assert_eq!(auction.phase(30, 35, 1357), Phase::Settleable);
        assert_eq!(auction.phase(30, 35, u64::MAX), Phase::Settleable);
        assert_eq!(auction.phase(u64::MAX, u64::MAX, u64::MAX), Phase::Bidding);
        assert_eq!(auction.phase(0, u64::MAX, u64::MAX), Phase::Revealing);
        assert_eq!(auction.phase(0, 0, 1292), Phase::Settleable);
        assert!(!auction.reveal_window_open(30, 35, 1321));
        assert!(auction.reveal_window_open(30, 35, 1322));
        assert!(auction.reveal_window_open(30, 35, 1356));
        assert!(!auction.reveal_window_open(30, 35, 1357));
        assert!(!auction.reveal_window_open(30, 35, 1000));
    }
    contract.reveal_bid(&call(carol(), 1322, 1000), auctioned_id(), 1000, "123".to_string());
    assert_eq!(
        contract.auction(&auctioned_id()).unwrap().phase(30, 35, 1322),
        Phase::Revealing
    );
    contract.reveal_bid(&call(bob(), 1322, 1005), auctioned_id(), 1005, "123".to_string());
    let auction = contract.auction(&auctioned_id()).unwrap();
    assert_eq!(auction.phase(30, 35, 1321), Phase::Bidding);
    assert_eq!(auction.phase(30, 35, 1322), Phase::Settleable);
    assert!(auction.reveal_window_open(30, 35, 1322));
}

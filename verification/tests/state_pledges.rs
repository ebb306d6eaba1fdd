use anchor_guardian::state::{Borrower, Guardian, State};

fn guardian(address: &str, amount: u128, pair_address: &str) -> Guardian {
    Guardian { address: address.to_string(), amount, pair_address: pair_address.to_string() }
}

#[test]
fn a_new_borrower_has_no_guardian() {
    let borrower = Borrower::new();
    assert!(borrower.guardians.is_empty());
    assert!(borrower.is_well_formed());
}

#[test]
fn pledges_are_kept_in_their_order() {
    let mut borrower = Borrower::new();
    borrower.pledge(guardian("A", 100, "venue1"));
    borrower.pledge(guardian("B", 50, "venue2"));
    borrower.pledge(guardian("C", 10, "venue3"));
    assert_eq!(
        borrower.guardians,
        vec![guardian("A", 100, "venue1"), guardian("B", 50, "venue2"), guardian("C", 10, "venue3")]
    );
    assert!(borrower.is_well_formed());
}

#[test]
fn pledging_twice_keeps_the_latest_in_the_last_place() {
    let mut borrower = Borrower::new();
    borrower.pledge(guardian("A", 100, "venue1"));
    borrower.pledge(guardian("B", 50, "venue2"));
    borrower.pledge(guardian("A", 7, "venue3"));
    assert_eq!(borrower.guardians, vec![guardian("B", 50, "venue2"), guardian("A", 7, "venue3")]);
    assert_eq!(borrower.guardians.iter().filter(|g| g.address == "A").count(), 1);
    assert!(borrower.is_well_formed());
}

#[test]
fn pledging_the_last_asset_again_replaces_it_in_place() {
    let mut borrower = Borrower::new();
    borrower.pledge(guardian("A", 100, "venue1"));
    borrower.pledge(guardian("A", 200, "venue1"));
    assert_eq!(borrower.guardians, vec![guardian("A", 200, "venue1")]);
}

#[test]
fn pledging_a_middle_asset_again_keeps_the_order_of_the_others() {
    let mut borrower = Borrower::new();
    borrower.pledge(guardian("A", 1, "v1"));
    borrower.pledge(guardian("B", 2, "v2"));
    borrower.pledge(guardian("C", 3, "v3"));
    borrower.pledge(guardian("B", 9, "v9"));
    assert_eq!(
        borrower.guardians,
        vec![guardian("A", 1, "v1"), guardian("C", 3, "v3"), guardian("B", 9, "v9")]
    );
}

#[test]
fn position_finds_the_first_holder() {
    let mut borrower = Borrower::new();
    borrower.pledge(guardian("A", 1, "v1"));
    borrower.pledge(guardian("B", 2, "v2"));
    assert_eq!(borrower.position(&"A".to_string()), Some(0));
    assert_eq!(borrower.position(&"B".to_string()), Some(1));
    assert_eq!(borrower.position(&"C".to_string()), None);
    assert_eq!(Borrower::new().position(&"A".to_string()), None);
}

#[test]
fn a_repeated_asset_is_not_well_formed() {
    let borrower =
        Borrower { guardians: vec![guardian("A", 1, "v1"), guardian("B", 2, "v2"), guardian("A", 3, "v3")] };
    assert!(!borrower.is_well_formed());
    let borrower = Borrower { guardians: vec![guardian("A", 1, "v1"), guardian("B", 1, "v1")] };
    assert!(borrower.is_well_formed());
}

#[test]
fn whitelist_knows_its_assets() {
    let state = State { whitelisted_cw20s: vec!["A".to_string(), "B".to_string()] };
    assert!(state.is_whitelisted(&"A".to_string()));
    assert!(state.is_whitelisted(&"B".to_string()));
    assert!(!state.is_whitelisted(&"C".to_string()));
    assert!(!State::new().is_whitelisted(&"A".to_string()));
}

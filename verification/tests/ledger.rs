use domain_voucher::ledger::{ClaimOutcome, CouponLedger};

#[test]
fn claim_of_missing_code_is_not_found() {
    let mut ledger = CouponLedger::new();
    assert_eq!(ledger.claim(&"12345".to_string()), ClaimOutcome::NotFound);
}

#[test]
fn first_claim_wins_second_is_refused() {
    let mut ledger = CouponLedger::new();
    assert!(ledger.provision("12345".to_string()));
    assert_eq!(ledger.claim(&"12345".to_string()), ClaimOutcome::Claimed);
    assert_eq!(ledger.claim(&"12345".to_string()), ClaimOutcome::AlreadyUsed);
    assert_eq!(ledger.claim(&"12345".to_string()), ClaimOutcome::AlreadyUsed);
}

#[test]
fn claims_of_distinct_codes_are_independent() {
    let mut ledger = CouponLedger::new();
    assert!(ledger.provision("111".to_string()));
    assert!(ledger.provision("222".to_string()));
    assert_eq!(ledger.claim(&"111".to_string()), ClaimOutcome::Claimed);
    assert_eq!(ledger.claim(&"222".to_string()), ClaimOutcome::Claimed);
    assert_eq!(ledger.claim(&"111".to_string()), ClaimOutcome::AlreadyUsed);
}

#[test]
fn provisioning_a_code_twice_changes_nothing() {
    let mut ledger = CouponLedger::new();
    assert!(ledger.provision("777".to_string()));
    assert!(!ledger.provision("777".to_string()));
    assert_eq!(ledger.claim(&"777".to_string()), ClaimOutcome::Claimed);
}

#[test]
fn provisioning_again_does_not_unspend_a_code() {
    let mut ledger = CouponLedger::new();
    assert!(ledger.provision("777".to_string()));
    assert_eq!(ledger.claim(&"777".to_string()), ClaimOutcome::Claimed);
    assert!(!ledger.provision("777".to_string()));
    assert_eq!(ledger.claim(&"777".to_string()), ClaimOutcome::AlreadyUsed);
}

#[test]
fn release_makes_a_code_claimable_again() {
    let mut ledger = CouponLedger::new();
    assert!(ledger.provision("42042".to_string()));
    assert_eq!(ledger.claim(&"42042".to_string()), ClaimOutcome::Claimed);
    assert!(ledger.release(&"42042".to_string()));
    assert_eq!(ledger.claim(&"42042".to_string()), ClaimOutcome::Claimed);
}

#[test]
fn release_of_a_missing_code_reports_so() {
    let mut ledger = CouponLedger::new();
    assert!(!ledger.release(&"nope".to_string()));
}

#[test]
fn is_used_tracks_the_lifecycle() {
    let mut ledger = CouponLedger::new();
    assert_eq!(ledger.is_used(&"5".to_string()), None);
    ledger.provision("5".to_string());
    assert_eq!(ledger.is_used(&"5".to_string()), Some(false));
    ledger.claim(&"5".to_string());
    assert_eq!(ledger.is_used(&"5".to_string()), Some(true));
}

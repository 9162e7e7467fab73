use domain_voucher::encoder::{AsciiPackEncoder, LabelEncoder};
use domain_voucher::field::{Felt, felt_from_dec_str};
use domain_voucher::ledger::CouponLedger;
use domain_voucher::service::{
    CampaignConfig, FreeDomainQuery, VoucherError, VoucherService, check_window,
};

const CAMPAIGN_CONST: &str = "2511989689804727759073888271181282305524144280507626647406";
const PRIV_KEY: &str = "123456789012345678901234567890";
const START: i64 = 1_700_000_000;
const END: i64 = 1_700_100_000;

fn felt(s: &str) -> Felt {
    felt_from_dec_str(s).expect("valid decimal field element")
}

fn service_with_codes(codes: &[&str]) -> VoucherService {
    let config = CampaignConfig {
        start_time: START,
        end_time: END,
        campaign_const: felt(CAMPAIGN_CONST),
        signing_key: felt(PRIV_KEY),
    };
    let mut ledger = CouponLedger::new();
    for code in codes {
        assert!(ledger.provision(code.to_string()));
    }
    VoucherService::new(config, ledger)
}

fn query(addr: &str, domain: &str, code: &str) -> FreeDomainQuery {
    FreeDomainQuery {
        addr: felt(addr),
        domain: domain.to_string(),
        code: code.to_string(),
    }
}

#[test]
fn label_of_two_characters_is_too_short() {
    let mut s = service_with_codes(&["12345"]);
    let out = s.issue(&AsciiPackEncoder, START + 10, &query("1234", "ab.eth", "12345"));
    assert_eq!(out.unwrap_err(), VoucherError::LabelTooShort);
}

#[test]
fn label_of_five_characters_passes_the_length_check() {
    let mut s = service_with_codes(&["12345"]);
    let out = s.issue(&AsciiPackEncoder, START + 10, &query("1234", "abcde.eth", "12345"));
    assert!(out.is_ok());
}

#[test]
fn three_part_domain_is_not_a_root_domain() {
    let mut s = service_with_codes(&["12345"]);
    let out = s.issue(&AsciiPackEncoder, START + 10, &query("1234", "a.b.eth", "12345"));
    assert_eq!(out.unwrap_err(), VoucherError::NotRootDomain);
}

#[test]
fn dotless_and_empty_part_domains_are_not_root_domains() {
    let mut s = service_with_codes(&["12345"]);
    for domain in ["abcde", ".eth", "abcde.", "."] {
        let out = s.issue(&AsciiPackEncoder, START + 10, &query("1234", domain, "12345"));
        assert_eq!(out.unwrap_err(), VoucherError::NotRootDomain);
    }
}

#[test]
fn one_second_before_start_is_inactive_at_start_it_proceeds() {
    let mut s = service_with_codes(&["12345"]);
    let q = query("1234", "abcde.eth", "12345");
    let out = s.issue(&AsciiPackEncoder, START - 1, &q);
    assert_eq!(out.unwrap_err(), VoucherError::CampaignInactive);
    let out = s.issue(&AsciiPackEncoder, START, &q);
    assert!(out.is_ok());
}

#[test]
fn at_end_time_it_proceeds_one_second_later_it_is_inactive() {
    let mut s = service_with_codes(&["12345", "54321"]);
    let out = s.issue(&AsciiPackEncoder, END + 1, &query("1234", "abcde.eth", "12345"));
    assert_eq!(out.unwrap_err(), VoucherError::CampaignInactive);
    let out = s.issue(&AsciiPackEncoder, END, &query("1234", "abcde.eth", "54321"));
    assert!(out.is_ok());
}

#[test]
fn window_bounds_are_inclusive() {
    assert!(!check_window(START, END, START - 1));
    assert!(check_window(START, END, START));
    assert!(check_window(START, END, END));
    assert!(!check_window(START, END, END + 1));
}

#[test]
fn end_to_end_voucher_then_coupon_already_used() {
    let mut s = service_with_codes(&["12345"]);
    let q = query("1234", "abcde.eth", "12345");
    let voucher = s.issue(&AsciiPackEncoder, START + 10, &q).expect("fresh coupon");
    assert_eq!(voucher.code, "12345");
    let expected_encoded = AsciiPackEncoder.encode("abcde").unwrap();
    assert_eq!(voucher.domain_encoded.to_bytes(), expected_encoded.to_bytes());
    let again = s.issue(&AsciiPackEncoder, START + 10, &q);
    assert_eq!(again.unwrap_err(), VoucherError::CouponAlreadyUsed);
}

#[test]
fn unknown_coupon_is_not_found() {
    let mut s = service_with_codes(&["12345"]);
    let out = s.issue(&AsciiPackEncoder, START + 10, &query("1234", "abcde.eth", "99999"));
    assert_eq!(out.unwrap_err(), VoucherError::CouponNotFound);
}

#[test]
fn non_decimal_coupon_fails_and_is_released() {
    let mut s = service_with_codes(&["not-a-number"]);
    let q = query("1234", "abcde.eth", "not-a-number");
    let out = s.issue(&AsciiPackEncoder, START + 10, &q);
    assert_eq!(out.unwrap_err(), VoucherError::InvalidFieldElement);
    // The claim was compensated: the coupon is not silently lost.
    assert_eq!(s.ledger.is_used(&"not-a-number".to_string()), Some(false));
}

#[test]
fn unencodable_label_fails_and_is_released() {
    let mut s = service_with_codes(&["12345"]);
    let q = query("1234", "caf\u{e9}s.eth", "12345");
    let out = s.issue(&AsciiPackEncoder, START + 10, &q);
    assert_eq!(out.unwrap_err(), VoucherError::LabelEncodingFailed);
    assert_eq!(s.ledger.is_used(&"12345".to_string()), Some(false));
}

#[test]
fn window_is_checked_before_the_domain_shape() {
    let mut s = service_with_codes(&["12345"]);
    let out = s.issue(&AsciiPackEncoder, START - 100, &query("1234", "a.b.eth", "12345"));
    assert_eq!(out.unwrap_err(), VoucherError::CampaignInactive);
}

#[test]
fn error_messages_match_the_refusals() {
    assert_eq!(VoucherError::CampaignInactive.message(), "Campaign not active");
    assert_eq!(VoucherError::NotRootDomain.message(), "Domain must be a root domain");
    assert_eq!(VoucherError::LabelTooShort.message(), "Domain too short");
    assert_eq!(VoucherError::CouponNotFound.message(), "Coupon code not found");
    assert_eq!(VoucherError::CouponAlreadyUsed.message(), "Coupon code already used");
}

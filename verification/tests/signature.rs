use domain_voucher::encoder::{AsciiPackEncoder, LabelEncoder};
use domain_voucher::field::{Felt, felt_from_dec_str};
use domain_voucher::ledger::CouponLedger;
use domain_voucher::service::{CampaignConfig, FreeDomainQuery, VoucherService};
use domain_voucher::sign::{SigningError, ecdsa_sign};

const CAMPAIGN_CONST: &str = "2511989689804727759073888271181282305524144280507626647406";
const PRIV_KEY: &str = "123456789012345678901234567890";

fn felt(s: &str) -> Felt {
    felt_from_dec_str(s).expect("valid decimal field element")
}

fn fe_of(f: &Felt) -> starknet_ff::FieldElement {
    let bytes: [u8; 32] = f.to_bytes().as_slice().try_into().unwrap();
    starknet_ff::FieldElement::from_bytes_be(&bytes).unwrap()
}

#[test]
fn issued_voucher_verifies_against_the_public_key() {
    let config = CampaignConfig {
        start_time: 0,
        end_time: 100,
        campaign_const: felt(CAMPAIGN_CONST),
        signing_key: felt(PRIV_KEY),
    };
    let mut ledger = CouponLedger::new();
    ledger.provision("12345".to_string());
    let mut service = VoucherService::new(config, ledger);
    let q = FreeDomainQuery {
        addr: felt("1234"),
        domain: "abcde.eth".to_string(),
        code: "12345".to_string(),
    };
    let voucher = service.issue(&AsciiPackEncoder, 50, &q).expect("voucher issued");

    // Recompute the message hash with the outside crate alone.
    let encoded = starknet_crypto::pedersen_hash(
        &starknet_crypto::pedersen_hash(
            &starknet_crypto::pedersen_hash(
                &fe_of(&felt("1234")),
                &fe_of(&AsciiPackEncoder.encode("abcde").unwrap()),
            ),
            &fe_of(&felt("12345")),
        ),
        &fe_of(&felt(CAMPAIGN_CONST)),
    );

    let public_key = starknet_crypto::get_public_key(&fe_of(&felt(PRIV_KEY)));
    let ok = starknet_crypto::verify(&public_key, &encoded, &fe_of(&voucher.r), &fe_of(&voucher.s))
        .expect("well-formed signature components");
    assert!(ok);
}

#[test]
fn signing_rejects_a_message_at_the_upper_bound_and_takes_one_below() {
    let key = felt(PRIV_KEY);
    let at_bound =
        felt("3618502788666131106986593281521497120414687020801267626233049500247285301248");
    let below =
        felt("3618502788666131106986593281521497120414687020801267626233049500247285301247");
    assert_eq!(ecdsa_sign(&key, &at_bound).unwrap_err(), SigningError::MessageOutOfRange);
    assert!(ecdsa_sign(&key, &below).is_ok());
}

#[test]
fn signature_components_are_nonzero() {
    let key = felt(PRIV_KEY);
    let msg = felt("42");
    let sig = ecdsa_sign(&key, &msg).unwrap();
    assert!(sig.r.to_bytes().iter().any(|b| *b != 0));
    assert!(sig.s.to_bytes().iter().any(|b| *b != 0));
}

//! The voucher service: validates a request, claims the coupon, binds the
//! inputs into a message hash and signs it.
//!
//! A failure after the coupon was claimed — an unencodable label, an
//! unparsable code, a signing failure — releases the claim before the error
//! is returned, so a grant is never spent without a voucher delivered.

use vstd::prelude::*;
use vstd::string::StrSliceExecFns;

use crate::encoder::LabelEncoder;
use crate::field::{Felt, dec_string_value, felt_from_dec_str, is_dec_string, stark_prime};
use crate::hash::{hash_chain, hash_chain_spec};
use crate::ledger::{ClaimOutcome, CouponLedger};
use crate::sign::{ecdsa_sign, sign_message_bound, sign_r_of, sign_s_of, signer_finds_scalar};

verus! {

/// The shortest label worth a free domain, in characters.
pub const MIN_LABEL_LEN: usize = 5;

/// The campaign is active from `start_time` to `end_time`, both ends
/// included.
pub open spec fn window_active(start_time: i64, end_time: i64, now: i64) -> bool {
    start_time <= now <= end_time
}

/// Returns whether `now` lies inside the campaign window.
pub fn check_window(start_time: i64, end_time: i64, now: i64) -> (active: bool)
    ensures
        active == window_active(start_time, end_time, now),
{
    start_time <= now && now <= end_time
}

/// Process-wide campaign configuration, read-only for the service.
pub struct CampaignConfig {
    /// First second of the campaign window.
    pub start_time: i64,
    /// Last second of the campaign window.
    pub end_time: i64,
    /// The field element identifying this campaign's voucher class.
    pub campaign_const: Felt,
    /// The signing key, provisioned once and never returned to callers.
    pub signing_key: Felt,
}

impl CampaignConfig {
    /// Both field elements are well-formed.
    pub open spec fn wf(&self) -> bool {
        self.campaign_const.wf() && self.signing_key.wf()
    }
}

/// One voucher request: who claims, which domain, with which coupon.
pub struct FreeDomainQuery {
    /// The claimant's public address.
    pub addr: Felt,
    /// The requested domain, `label.tld`.
    pub domain: String,
    /// The one-time coupon code.
    pub code: String,
}

impl FreeDomainQuery {
    /// The address is a well-formed field element.
    pub open spec fn wf(&self) -> bool {
        self.addr.wf()
    }
}

/// The issued artifact: the signature pair and the echoed identifiers.
#[derive(Debug)]
pub struct Voucher {
    /// The `r` component of the signature.
    pub r: Felt,
    /// The `s` component of the signature.
    pub s: Felt,
    /// The coupon code the voucher spent.
    pub code: String,
    /// The encoded domain label the signature covers.
    pub domain_encoded: Felt,
}

/// Why a request was refused.
#[derive(PartialEq, Eq, Structural, Clone, Copy, Debug)]
pub enum VoucherError {
    /// `now` lies outside the campaign window.
    CampaignInactive,
    /// The domain does not split into exactly two non-empty parts.
    NotRootDomain,
    /// The label part is shorter than the minimum policy.
    LabelTooShort,
    /// No coupon with this code exists.
    CouponNotFound,
    /// The coupon's grant was already spent.
    CouponAlreadyUsed,
    /// The encoder cannot encode this label.
    LabelEncodingFailed,
    /// The coupon code is not a decimal numeral of a field element.
    InvalidFieldElement,
    /// The signer refused the message hash, or ran out of usable scalars.
    SignatureFailed,
    /// The store could not persist the spent mark.
    LedgerWriteFailed,
}

impl VoucherError {
    /// The user-visible description of the refusal.
    pub fn message(&self) -> (r: &'static str)
        ensures
            *self is CampaignInactive ==> r@ == "Campaign not active"@,
            *self is NotRootDomain ==> r@ == "Domain must be a root domain"@,
            *self is LabelTooShort ==> r@ == "Domain too short"@,
            *self is CouponNotFound ==> r@ == "Coupon code not found"@,
            *self is CouponAlreadyUsed ==> r@ == "Coupon code already used"@,
            *self is LabelEncodingFailed ==> r@ == "Error while encoding domain label"@,
            *self is InvalidFieldElement ==> r@ == "Invalid field element"@,
            *self is SignatureFailed ==> r@ == "Error while generating signature"@,
            *self is LedgerWriteFailed ==> r@ == "Error while updating coupon code"@,
    {
        match self {
            VoucherError::CampaignInactive => "Campaign not active",
            VoucherError::NotRootDomain => "Domain must be a root domain",
            VoucherError::LabelTooShort => "Domain too short",
            VoucherError::CouponNotFound => "Coupon code not found",
            VoucherError::CouponAlreadyUsed => "Coupon code already used",
            VoucherError::LabelEncodingFailed => "Error while encoding domain label",
            VoucherError::InvalidFieldElement => "Invalid field element",
            VoucherError::SignatureFailed => "Error while generating signature",
            VoucherError::LedgerWriteFailed => "Error while updating coupon code",
        }
    }
}

/// `p` is the position of the one and only dot in `d`.
pub open spec fn is_dot_at(d: Seq<char>, p: int) -> bool {
    &&& 0 <= p < d.len()
    &&& d[p] == '.'
    &&& forall|i: int| 0 <= i < d.len() && #[trigger] d[i] == '.' ==> i == p
}

/// The domain splits on `.` into exactly two non-empty parts.
pub open spec fn is_root_domain(d: Seq<char>) -> bool {
    exists|p: int| is_dot_at(d, p) && 1 <= p && p + 2 <= d.len()
}

/// The position of the single dot of a root domain.
pub open spec fn dot_index(d: Seq<char>) -> int {
    choose|p: int| is_dot_at(d, p)
}

/// The label part of a root domain: everything before the dot.
pub open spec fn label_of(d: Seq<char>) -> Seq<char> {
    d.subrange(0, dot_index(d))
}

/// Finds the position of the dot if the string holds exactly one, scanning
/// the characters once.
fn find_single_dot(domain: &str) -> (r: Option<usize>)
    ensures
        r matches Some(p) ==> is_dot_at(domain@, p as int),
        r is None ==> !(exists|p: int| is_dot_at(domain@, p)),
{
    let n = domain.unicode_len();
    let mut i: usize = 0;
    let mut count: usize = 0;
    let mut first: usize = 0;
    let mut second: usize = 0;
    while i < n
        invariant
            n == domain@.len(),
            i <= n,
            count <= i,
            count == 0 ==> forall|q: int| 0 <= q < i ==> domain@[q] != '.',
            count == 1 ==> first < i && domain@[first as int] == '.' && forall|q: int|
                0 <= q < i && q != first ==> domain@[q] != '.',
            count >= 2 ==> first < second < i && domain@[first as int] == '.'
                && domain@[second as int] == '.',
        decreases n - i,
    {
        let c = domain.get_char(i);
        if c == '.' {
            if count == 0 {
                first = i;
            } else if count == 1 {
                second = i;
            }
            count = count + 1;
        }
        i = i + 1;
    }
    if count == 1 {
        Some(first)
    } else if count == 0 {
        proof {
            assert forall|p: int| !is_dot_at(domain@, p) by {
                if 0 <= p < domain@.len() {
                    assert(domain@[p] != '.');
                }
            }
        }
        None
    } else {
        proof {
            assert forall|p: int| !is_dot_at(domain@, p) by {
                if is_dot_at(domain@, p) {
                    assert(domain@[first as int] == '.');
                    assert(domain@[second as int] == '.');
                }
            }
        }
        None
    }
}

/// What a request's message hash will be, once every check has passed.
pub open spec fn expected_hash<E: LabelEncoder>(
    cfg: CampaignConfig,
    encoder: E,
    addr: nat,
    domain: Seq<char>,
    code: Seq<char>,
) -> nat {
    hash_chain_spec(
        addr,
        encoder.spec_encode(label_of(domain)).unwrap(),
        dec_string_value(code),
        cfg.campaign_const@,
    )
}

/// The refusal a request is owed, or `None` where a voucher is owed — except
/// that the signer may still fail on a run of degenerate scalars, which no
/// input predicts.
pub open spec fn expected_error<E: LabelEncoder>(
    cfg: CampaignConfig,
    m: Map<Seq<char>, bool>,
    encoder: E,
    now: i64,
    addr: nat,
    domain: Seq<char>,
    code: Seq<char>,
) -> Option<VoucherError> {
    if !window_active(cfg.start_time, cfg.end_time, now) {
        Some(VoucherError::CampaignInactive)
    } else if !is_root_domain(domain) {
        Some(VoucherError::NotRootDomain)
    } else if label_of(domain).len() < MIN_LABEL_LEN {
        Some(VoucherError::LabelTooShort)
    } else if !m.contains_key(code) {
        Some(VoucherError::CouponNotFound)
    } else if m[code] {
        Some(VoucherError::CouponAlreadyUsed)
    } else if encoder.spec_encode(label_of(domain)) is None {
        Some(VoucherError::LabelEncodingFailed)
    } else if !is_dec_string(code) || dec_string_value(code) >= stark_prime() {
        Some(VoucherError::InvalidFieldElement)
    } else if expected_hash(cfg, encoder, addr, domain, code) >= sign_message_bound() {
        Some(VoucherError::SignatureFailed)
    } else {
        None
    }
}

/// The voucher service: the campaign configuration and the coupon store it
/// drives.
pub struct VoucherService {
    /// The campaign's window, constant and signing key.
    pub config: CampaignConfig,
    /// The single-use coupon store.
    pub ledger: CouponLedger,
}

impl VoucherService {
    /// Configuration and store are well-formed.
    pub open spec fn wf(&self) -> bool {
        self.config.wf() && self.ledger.wf()
    }

    /// Builds a service over a configuration and a provisioned store.
    pub fn new(config: CampaignConfig, ledger: CouponLedger) -> (s: VoucherService)
        requires
            config.wf(),
            ledger.wf(),
        ensures
            s.wf(),
            s.config == config,
            s.ledger@ == ledger@,
    {
        VoucherService { config, ledger }
    }

    /// Handles one voucher request.
    ///
    /// Checks the campaign window and the domain shape, atomically claims the
    /// coupon, encodes the label, binds address, encoded label, coupon value
    /// and campaign constant into the message hash, and signs it. Exactly the
    /// refusal of [`expected_error`] is returned, and a voucher is owed
    /// exactly when that refusal is `None` and the signer accepts one of the
    /// drawn scalars for the expected hash; the one failure no input predicts
    /// — the signer refusing every drawn scalar — is surfaced as
    /// [`VoucherError::SignatureFailed`]. The coupon is marked used if and
    /// only if a voucher is returned: a claim whose voucher cannot be
    /// produced is released again.
    pub fn issue<E: LabelEncoder>(&mut self, encoder: &E, now: i64, query: &FreeDomainQuery) -> (out:
        Result<Voucher, VoucherError>)
        requires
            old(self).wf(),
            query.wf(),
        ensures
            final(self).wf(),
            final(self).config == old(self).config,
            ({
                let e = expected_error(
                    old(self).config,
                    old(self).ledger@,
                    *encoder,
                    now,
                    query.addr@,
                    query.domain@,
                    query.code@,
                );
                let h = expected_hash(
                    old(self).config,
                    *encoder,
                    query.addr@,
                    query.domain@,
                    query.code@,
                );
                match out {
                    Ok(v) => {
                        &&& e is None
                        &&& signer_finds_scalar(old(self).config.signing_key@, h)
                        &&& final(self).ledger@ == old(self).ledger@.insert(query.code@, true)
                        &&& v.r.wf() && v.s.wf() && v.domain_encoded.wf()
                        &&& v.code@ == query.code@
                        &&& Some(v.domain_encoded@) == encoder.spec_encode(label_of(query.domain@))
                        &&& exists|k: nat|
                            v.r@ == sign_r_of(old(self).config.signing_key@, h, k) && v.s@
                                == sign_s_of(old(self).config.signing_key@, h, k)
                    },
                    Err(err) => {
                        &&& final(self).ledger@ == old(self).ledger@
                        &&& ((e matches Some(x) && err == x) || (e is None && !signer_finds_scalar(
                            old(self).config.signing_key@,
                            h,
                        ) && err == VoucherError::SignatureFailed))
                    },
                }
            }),
    {
        if !check_window(self.config.start_time, self.config.end_time, now) {
            return Err(VoucherError::CampaignInactive);
        }
        let n = query.domain.as_str().unicode_len();
        let p = match find_single_dot(query.domain.as_str()) {
            Some(p) => p,
            None => {
                return Err(VoucherError::NotRootDomain);
            },
        };
        let ghost d = query.domain@;
        proof {
            assert forall|q: int| is_dot_at(d, q) implies q == p as int by {
                assert(d[q] == '.');
            }
        }
        if p == 0 || p + 1 >= n {
            proof {
                assert(!is_root_domain(d));
            }
            return Err(VoucherError::NotRootDomain);
        }
        proof {
            assert(is_root_domain(d));
            assert(is_dot_at(d, dot_index(d)));
            assert(dot_index(d) == p as int);
            assert(label_of(d) == d.subrange(0, p as int));
        }
        if p < MIN_LABEL_LEN {
            return Err(VoucherError::LabelTooShort);
        }
        let label = query.domain.as_str().substring_char(0, p);
        let ghost pre_claim = self.ledger@;
        match self.ledger.claim(&query.code) {
            ClaimOutcome::NotFound => {
                return Err(VoucherError::CouponNotFound);
            },
            ClaimOutcome::AlreadyUsed => {
                return Err(VoucherError::CouponAlreadyUsed);
            },
            ClaimOutcome::Claimed => {},
        }
        proof {
            assert(pre_claim.contains_key(query.code@) && pre_claim[query.code@] == false);
            assert(self.ledger@ == pre_claim.insert(query.code@, true));
        }
        let encoded = match encoder.encode(label) {
            Some(f) => f,
            None => {
                self.ledger.release(&query.code);
                proof {
                    assert(self.ledger@ =~= pre_claim);
                }
                return Err(VoucherError::LabelEncodingFailed);
            },
        };
        let code_fe = match felt_from_dec_str(query.code.as_str()) {
            Some(f) => f,
            None => {
                self.ledger.release(&query.code);
                proof {
                    assert(self.ledger@ =~= pre_claim);
                }
                return Err(VoucherError::InvalidFieldElement);
            },
        };
        let msg = hash_chain(&query.addr, &encoded, &code_fe, &self.config.campaign_const);
        match ecdsa_sign(&self.config.signing_key, &msg) {
            Ok(sig) => {
                Ok(
                    Voucher {
                        r: sig.r,
                        s: sig.s,
                        code: query.code.clone(),
                        domain_encoded: encoded,
                    },
                )
            },
            Err(_) => {
                self.ledger.release(&query.code);
                proof {
                    assert(self.ledger@ =~= pre_claim);
                }
                Err(VoucherError::SignatureFailed)
            },
        }
    }
}

} // verus!

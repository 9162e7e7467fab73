//! ECDSA signing over the Stark curve.
//!
//! The signing key is provisioned once and held for the process lifetime; a
//! message hash is signed with a deterministically derived ephemeral scalar,
//! retrying with a fresh seed when the scalar turns out degenerate — the same
//! discipline the `starknet` crates apply.

use vstd::prelude::*;

use crate::field::Felt;

verus! {

/// Messages signable over the Stark curve lie below 2^251; the outside
/// signer rejects any message hash at or above this bound.
pub open spec fn sign_message_bound() -> nat {
    0x800000000000000000000000000000000000000000000000000000000000000nat
}

/// The `r` component the outside signer returns for a key, a message and an
/// ephemeral scalar. Signing is deterministic in those three values.
pub uninterp spec fn sign_r_of(key: nat, msg: nat, k: nat) -> nat;

/// The `s` component the outside signer returns for a key, a message and an
/// ephemeral scalar.
pub uninterp spec fn sign_s_of(key: nat, msg: nat, k: nat) -> nat;

/// The ephemeral scalar the outside derivation returns for a message, a key
/// and a seed. The derivation is deterministic in those three values.
pub uninterp spec fn gen_k_of(msg: nat, key: nat, seed: u64) -> nat;

/// Whether the outside signer accepts an ephemeral scalar for a key and a
/// message in the signable range — that is, returns a signature rather than
/// reporting the scalar degenerate. Acceptance is deterministic in the three
/// values.
pub uninterp spec fn sign_accepts(key: nat, msg: nat, k: nat) -> bool;

/// An ECDSA signature over the Stark curve.
#[derive(Debug)]
pub struct EcdsaSignature {
    pub r: Felt,
    pub s: Felt,
}

/// One signing attempt with a given ephemeral scalar.
pub enum SignAttempt {
    /// The signature components.
    Signed(EcdsaSignature),
    /// The message hash lies outside the signable range.
    MessageOutOfRange,
    /// The scalar was degenerate for this message; another must be drawn.
    UnusableK,
}

/// Derives an ephemeral scalar for a message and key from an extra seed.
///
/// Relies on `starknet_crypto::rfc6979_generate_k`, an HMAC-DRBG derivation
/// that depends on its three arguments alone and returns a nonzero scalar
/// below the curve order — in particular a well-formed field element. A zero
/// seed stands for no extra entropy: the outside function strips leading
/// zero bytes from the seed, so a zero seed and an absent one yield the same
/// scalar.
#[verifier::external_body]
fn generate_k(msg: &Felt, key: &Felt, seed: u64) -> (k: Felt)
    requires
        msg.wf(),
        key.wf(),
    ensures
        k.wf(),
        0 < k@,
        k@ == gen_k_of(msg@, key@, seed),
{
    let mf = starknet_ff::FieldElement::from_byte_slice_be(&msg.bytes).unwrap();
    let pf = starknet_ff::FieldElement::from_byte_slice_be(&key.bytes).unwrap();
    let sf = starknet_ff::FieldElement::from(seed);
    let k = starknet_crypto::rfc6979_generate_k(&mf, &pf, Some(&sf));
    Felt { bytes: k.to_bytes_be().to_vec() }
}

/// Signs a message hash with one ephemeral scalar.
///
/// Relies on `starknet_crypto::sign`: it rejects a message hash at or above
/// 2^251 before anything else; otherwise, as a deterministic function of
/// key, message and scalar, it either reports the scalar unusable (zero, or
/// leading to a degenerate `r` or `s`) or returns `r` and `s`, each nonzero
/// and below 2^251.
#[verifier::external_body]
fn sign_attempt(key: &Felt, msg: &Felt, k: &Felt) -> (out: SignAttempt)
    requires
        key.wf(),
        msg.wf(),
        k.wf(),
    ensures
        (out is MessageOutOfRange) == (msg@ >= sign_message_bound()),
        (out is Signed) == (msg@ < sign_message_bound() && sign_accepts(key@, msg@, k@)),
        (out is UnusableK) == (msg@ < sign_message_bound() && !sign_accepts(key@, msg@, k@)),
        out matches SignAttempt::Signed(sig) ==> {
            &&& sig.r.wf()
            &&& sig.s.wf()
            &&& sig.r@ == sign_r_of(key@, msg@, k@)
            &&& sig.s@ == sign_s_of(key@, msg@, k@)
            &&& 0 < sig.r@ < sign_message_bound()
            &&& 0 < sig.s@ < sign_message_bound()
        },
{
    let pf = starknet_ff::FieldElement::from_byte_slice_be(&key.bytes).unwrap();
    let mf = starknet_ff::FieldElement::from_byte_slice_be(&msg.bytes).unwrap();
    let kf = starknet_ff::FieldElement::from_byte_slice_be(&k.bytes).unwrap();
    match starknet_crypto::sign(&pf, &mf, &kf) {
        Ok(sig) => SignAttempt::Signed(EcdsaSignature {
            r: Felt { bytes: sig.r.to_bytes_be().to_vec() },
            s: Felt { bytes: sig.s.to_bytes_be().to_vec() },
        }),
        Err(starknet_crypto::SignError::InvalidMessageHash) => SignAttempt::MessageOutOfRange,
        Err(starknet_crypto::SignError::InvalidK) => SignAttempt::UnusableK,
    }
}

/// How many ephemeral scalars are drawn before signing is given up as
/// failed. A degenerate scalar is overwhelmingly unlikely, so more than one
/// round is almost never taken.
pub const MAX_SIGN_ATTEMPTS: u64 = 64;

/// Whether any of the seeds the signing loop draws yields a scalar the
/// signer accepts for this key and message. Exactly then a signature is owed
/// for a message in the signable range.
pub open spec fn signer_finds_scalar(key: nat, msg: nat) -> bool {
    exists|a: u64|
        a < MAX_SIGN_ATTEMPTS && sign_accepts(key, msg, gen_k_of(msg, key, a))
}

/// Why signing failed.
#[derive(PartialEq, Eq, Structural, Clone, Copy, Debug)]
pub enum SigningError {
    /// The message hash lies outside the signable range.
    MessageOutOfRange,
    /// Every drawn ephemeral scalar was degenerate for this message.
    RetriesExhausted,
}

/// Signs a message hash, drawing the ephemeral scalars of seeds `0` up to
/// [`MAX_SIGN_ATTEMPTS`] in order until the signer accepts one.
///
/// A message hash outside the signable range is rejected as such. A voucher
/// is owed exactly when the hash is signable and some drawn scalar is
/// accepted; a run of nothing but degenerate scalars — rare, and decided by
/// the outside signer — is surfaced as a retryable failure, never silently
/// substituted.
pub fn ecdsa_sign(key: &Felt, msg: &Felt) -> (out: Result<EcdsaSignature, SigningError>)
    requires
        key.wf(),
        msg.wf(),
    ensures
        (out == Err::<EcdsaSignature, SigningError>(SigningError::MessageOutOfRange)) == (msg@
            >= sign_message_bound()),
        (out is Ok) == (msg@ < sign_message_bound() && signer_finds_scalar(key@, msg@)),
        out matches Ok(sig) ==> {
            &&& sig.r.wf()
            &&& sig.s.wf()
            &&& 0 < sig.r@ < sign_message_bound()
            &&& 0 < sig.s@ < sign_message_bound()
            &&& exists|a: u64|
                {
                    &&& a < MAX_SIGN_ATTEMPTS
                    &&& sign_accepts(key@, msg@, gen_k_of(msg@, key@, a))
                    &&& sig.r@ == sign_r_of(key@, msg@, gen_k_of(msg@, key@, a))
                    &&& sig.s@ == sign_s_of(key@, msg@, gen_k_of(msg@, key@, a))
                }
        },
{
    let mut attempt: u64 = 0;
    while attempt < MAX_SIGN_ATTEMPTS
        invariant
            key.wf(),
            msg.wf(),
            attempt <= MAX_SIGN_ATTEMPTS,
            attempt > 0 ==> msg@ < sign_message_bound(),
            forall|b: u64| b < attempt ==> !sign_accepts(key@, msg@, gen_k_of(msg@, key@, b)),
        decreases MAX_SIGN_ATTEMPTS - attempt,
    {
        let k = generate_k(msg, key, attempt);
        match sign_attempt(key, msg, &k) {
            SignAttempt::Signed(sig) => {
                proof {
                    let a = attempt;
                    assert(sign_accepts(key@, msg@, gen_k_of(msg@, key@, a)));
                    assert(sig.r@ == sign_r_of(key@, msg@, gen_k_of(msg@, key@, a)));
                    assert(sig.s@ == sign_s_of(key@, msg@, gen_k_of(msg@, key@, a)));
                }
                return Ok(sig);
            },
            SignAttempt::MessageOutOfRange => {
                return Err(SigningError::MessageOutOfRange);
            },
            SignAttempt::UnusableK => {
                attempt = attempt + 1;
            },
        }
    }
    proof {
        assert(!signer_finds_scalar(key@, msg@)) by {
            if signer_finds_scalar(key@, msg@) {
                let a = choose|a: u64|
                    a < MAX_SIGN_ATTEMPTS && sign_accepts(key@, msg@, gen_k_of(msg@, key@, a));
                assert(!sign_accepts(key@, msg@, gen_k_of(msg@, key@, a)));
            }
        }
    }
    Err(SigningError::RetriesExhausted)
}

} // verus!

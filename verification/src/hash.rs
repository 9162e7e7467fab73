//! The three-stage Pedersen hash chain that binds a claim's inputs into one
//! signable message hash.

use vstd::prelude::*;

use crate::field::Felt;

verus! {

/// What the Pedersen compression function returns on a pair of field element
/// values. The function is deterministic, so its result is a function of the
/// two values alone; its definition is the outside crate's.
pub uninterp spec fn pedersen_of(x: nat, y: nat) -> nat;

/// Two-input Pedersen hash over the Stark field.
///
/// Relies on `starknet_crypto::pedersen_hash`, which maps two field elements
/// to a field element and depends on nothing but its arguments, and on the
/// canonical byte conversions of `starknet_ff::FieldElement`.
#[verifier::external_body]
fn pedersen(x: &Felt, y: &Felt) -> (r: Felt)
    requires
        x.wf(),
        y.wf(),
    ensures
        r.wf(),
        r@ == pedersen_of(x@, y@),
{
    let xf = starknet_ff::FieldElement::from_byte_slice_be(&x.bytes).unwrap();
    let yf = starknet_ff::FieldElement::from_byte_slice_be(&y.bytes).unwrap();
    let out = starknet_crypto::pedersen_hash(&xf, &yf);
    Felt { bytes: out.to_bytes_be().to_vec() }
}

/// The message hash bound to a claim: a strict left-to-right nested chain
/// `H(H(H(addr, encoded_label), code), campaign_const)`. The argument order
/// is part of the format; swapping operands yields a different hash.
pub open spec fn hash_chain_spec(addr: nat, encoded_label: nat, code: nat, campaign_const: nat) -> nat {
    pedersen_of(pedersen_of(pedersen_of(addr, encoded_label), code), campaign_const)
}

/// Computes the message hash of a claim.
pub fn hash_chain(addr: &Felt, encoded_label: &Felt, code: &Felt, campaign_const: &Felt) -> (r: Felt)
    requires
        addr.wf(),
        encoded_label.wf(),
        code.wf(),
        campaign_const.wf(),
    ensures
        r.wf(),
        r@ == hash_chain_spec(addr@, encoded_label@, code@, campaign_const@),
{
    let h1 = pedersen(addr, encoded_label);
    let h2 = pedersen(&h1, code);
    pedersen(&h2, campaign_const)
}

/// The hash chain is deterministic: two claims with equal input values are
/// bound to the same message hash, with no salt or nonce mixed in.
pub proof fn lemma_hash_chain_deterministic(
    addr1: nat,
    enc1: nat,
    code1: nat,
    const1: nat,
    addr2: nat,
    enc2: nat,
    code2: nat,
    const2: nat,
)
    requires
        addr1 == addr2,
        enc1 == enc2,
        code1 == code2,
        const1 == const2,
    ensures
        hash_chain_spec(addr1, enc1, code1, const1) == hash_chain_spec(addr2, enc2, code2, const2),
{
}

} // verus!

//! Elements of the Stark prime field, the value space of every hash and
//! signature in this crate.
//!
//! A `Felt` holds the canonical 32-byte big-endian representation of a field
//! element; its mathematical value (a `nat` below the field's prime) is the
//! view. Construction from a decimal string is delegated to the `starknet-ff`
//! crate, which owns the field arithmetic.

use vstd::prelude::*;

verus! {

/// The Stark prime: 2^251 + 17 * 2^192 + 1.
pub open spec fn stark_prime() -> nat {
    0x800000000000011000000000000000000000000000000000000000000000001nat
}

/// Value of a big-endian byte string.
pub open spec fn be_bytes_value(s: Seq<u8>) -> nat
    decreases s.len(),
{
    if s.len() == 0 {
        0
    } else {
        be_bytes_value(s.drop_last()) * 256 + s.last() as nat
    }
}

/// Every character of `s` is a decimal digit. The empty string counts as a
/// numeral (of value zero), as the outside parser accepts it.
pub open spec fn is_dec_string(s: Seq<char>) -> bool {
    forall|i: int| 0 <= i < s.len() ==> '0' <= #[trigger] s[i] <= '9'
}

/// Numeric value of a decimal numeral.
pub open spec fn dec_string_value(s: Seq<char>) -> nat
    decreases s.len(),
{
    if s.len() == 0 {
        0
    } else {
        dec_string_value(s.drop_last()) * 10 + (s.last() as int - '0' as int) as nat
    }
}

/// An element of the Stark prime field, held as its canonical big-endian
/// byte representation.
#[derive(Debug)]
pub struct Felt {
    pub(crate) bytes: Vec<u8>,
}

impl Felt {
    /// The canonical byte representation.
    pub closed spec fn spec_bytes(&self) -> Seq<u8> {
        self.bytes@
    }

    /// The mathematical value of the element.
    pub closed spec fn value(&self) -> nat {
        be_bytes_value(self.bytes@)
    }

    /// A well-formed element is 32 canonical bytes of a value below the prime.
    pub open spec fn wf(&self) -> bool {
        self.spec_bytes().len() == 32 && self.value() < stark_prime()
    }

    /// The canonical big-endian byte representation, as a fresh vector.
    pub fn to_bytes(&self) -> (r: Vec<u8>)
        ensures
            r@ == self.spec_bytes(),
            be_bytes_value(r@) == self.value(),
    {
        let mut out: Vec<u8> = Vec::new();
        let mut i: usize = 0;
        while i < self.bytes.len()
            invariant
                i <= self.bytes.len(),
                out@ == self.bytes@.subrange(0, i as int),
            decreases self.bytes.len() - i,
        {
            out.push(self.bytes[i]);
            i = i + 1;
        }
        proof {
            assert(out@ =~= self.bytes@);
        }
        out
    }
}

impl View for Felt {
    type V = nat;

    open spec fn view(&self) -> nat {
        self.value()
    }
}

impl Clone for Felt {
    fn clone(&self) -> (r: Self)
        ensures
            r.spec_bytes() == self.spec_bytes(),
            r@ == self@,
    {
        let b = self.to_bytes();
        Felt { bytes: b }
    }
}

/// 256 to the `n`.
pub open spec fn pow256(n: nat) -> nat
    decreases n,
{
    if n == 0 {
        1
    } else {
        256 * pow256((n - 1) as nat)
    }
}

/// A big-endian byte string's value is bounded by 256 to its length.
pub proof fn lemma_be_bytes_value_bound(s: Seq<u8>)
    ensures
        be_bytes_value(s) < pow256(s.len()),
    decreases s.len(),
{
    if s.len() > 0 {
        lemma_be_bytes_value_bound(s.drop_last());
    }
}

/// Leading zero bytes do not change a byte string's value.
pub proof fn lemma_be_bytes_value_leading_zeros(z: Seq<u8>, t: Seq<u8>)
    requires
        forall|i: int| 0 <= i < z.len() ==> z[i] == 0,
    ensures
        be_bytes_value(z + t) == be_bytes_value(t),
    decreases t.len(),
{
    if t.len() == 0 {
        assert(z + t =~= z);
        lemma_be_bytes_value_zeros(z);
    } else {
        assert((z + t).drop_last() =~= z + t.drop_last());
        assert((z + t).last() == t.last());
        lemma_be_bytes_value_leading_zeros(z, t.drop_last());
    }
}

proof fn lemma_be_bytes_value_zeros(z: Seq<u8>)
    requires
        forall|i: int| 0 <= i < z.len() ==> z[i] == 0,
    ensures
        be_bytes_value(z) == 0,
    decreases z.len(),
{
    if z.len() > 0 {
        lemma_be_bytes_value_zeros(z.drop_last());
    }
}

/// A value of at most 31 bytes lies below the prime.
pub proof fn lemma_short_be_bytes_below_prime(s: Seq<u8>)
    requires
        s.len() <= 31,
    ensures
        be_bytes_value(s) < stark_prime(),
{
    lemma_be_bytes_value_bound(s);
    lemma_pow256_increases(s.len(), 31);
    assert(pow256(31) == 0x100000000000000000000000000000000000000000000000000000000000000nat)
        by {
        reveal_with_fuel(pow256, 32);
    }
}

proof fn lemma_pow256_increases(a: nat, b: nat)
    requires
        a <= b,
    ensures
        pow256(a) <= pow256(b),
    decreases b,
{
    if a < b && b > 0 {
        lemma_pow256_increases(a, (b - 1) as nat);
        assert(pow256((b - 1) as nat) <= 256 * pow256((b - 1) as nat)) by (nonlinear_arith);
    }
}

impl Felt {
    /// Builds the element whose canonical big-endian bytes are given: 32
    /// bytes of a value below the prime.
    pub fn from_canonical_bytes(bytes: Vec<u8>) -> (r: Felt)
        requires
            bytes@.len() == 32,
            be_bytes_value(bytes@) < stark_prime(),
        ensures
            r.wf(),
            r.spec_bytes() == bytes@,
            r@ == be_bytes_value(bytes@),
    {
        Felt { bytes }
    }
}

/// Parses a decimal numeral into a field element.
///
/// Relies on `starknet_ff::FieldElement::from_dec_str`, which accepts exactly
/// the strings whose characters are all decimal digits and whose value lies
/// below the prime, and on `FieldElement::to_bytes_be`, which returns the
/// canonical big-endian representation of the parsed value.
#[verifier::external_body]
pub fn felt_from_dec_str(s: &str) -> (r: Option<Felt>)
    ensures
        (r is Some) == (is_dec_string(s@) && dec_string_value(s@) < stark_prime()),
        r matches Some(f) ==> f.wf() && f@ == dec_string_value(s@),
{
    match starknet_ff::FieldElement::from_dec_str(s) {
        Ok(fe) => Some(Felt { bytes: fe.to_bytes_be().to_vec() }),
        Err(_) => None,
    }
}

} // verus!

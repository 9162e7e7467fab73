//! The label encoder: turns a domain label into the field element that enters
//! the message hash.
//!
//! The encoding function is an external collaborator of the voucher core: it
//! must be pure, deterministic over valid labels, and report failure for
//! labels it cannot encode. It is therefore an interface here, so the core
//! works with any such encoder; [`AsciiPackEncoder`] is the crate's own,
//! fully verified implementation.

use vstd::prelude::*;
use vstd::string::StrSliceExecFns;

use crate::field::{
    Felt, be_bytes_value, lemma_be_bytes_value_leading_zeros, lemma_short_be_bytes_below_prime,
    stark_prime,
};

verus! {

/// A pure, deterministic map from domain labels to field elements, with
/// failure for labels outside the encodable set.
pub trait LabelEncoder {
    /// What the encoder yields for a label: a field element value, or `None`
    /// for a label it cannot encode.
    spec fn spec_encode(&self, label: Seq<char>) -> Option<nat>;

    /// Every value the encoder yields lies in the field.
    proof fn encodable_in_field(&self, label: Seq<char>)
        ensures
            self.spec_encode(label) matches Some(v) ==> v < stark_prime(),
    ;

    /// Encodes a label, failing exactly on the labels the encoder cannot
    /// encode.
    fn encode(&self, label: &str) -> (r: Option<Felt>)
        ensures
            r matches Some(f) ==> f.wf() && self.spec_encode(label@) == Some(f@),
            r is None ==> self.spec_encode(label@) is None,
    ;
}

/// Big-endian base-256 packing of an ASCII label of at most 31 characters.
pub open spec fn ascii_pack_value(s: Seq<char>) -> nat
    decreases s.len(),
{
    if s.len() == 0 {
        0
    } else {
        ascii_pack_value(s.drop_last()) * 256 + (s.last() as nat)
    }
}

/// The longest label the packing encoder accepts: 31 bytes keep every packed
/// value below the field's prime.
pub const MAX_PACKED_LABEL_LEN: usize = 31;

/// A verified encoder: packs the bytes of an ASCII label, big-endian, into
/// one field element. Labels longer than [`MAX_PACKED_LABEL_LEN`] characters
/// or with non-ASCII characters are refused.
pub struct AsciiPackEncoder;

impl AsciiPackEncoder {
    /// The encodable labels: ASCII, at most 31 characters.
    pub open spec fn encodable(label: Seq<char>) -> bool {
        label.len() <= MAX_PACKED_LABEL_LEN && vstd::utf8::is_ascii_chars(label)
    }
}

impl LabelEncoder for AsciiPackEncoder {
    open spec fn spec_encode(&self, label: Seq<char>) -> Option<nat> {
        if AsciiPackEncoder::encodable(label) {
            Some(ascii_pack_value(label))
        } else {
            None
        }
    }

    proof fn encodable_in_field(&self, label: Seq<char>)
        ensures
            self.spec_encode(label) matches Some(v) ==> v < stark_prime(),
    {
        if AsciiPackEncoder::encodable(label) {
            lemma_ascii_pack_below_prime(label);
        }
    }

    fn encode(&self, label: &str) -> (r: Option<Felt>)
        ensures
            r matches Some(f) ==> f.wf() && self.spec_encode(label@) == Some(f@),
            r is None ==> self.spec_encode(label@) is None,
    {
        let n = label.unicode_len();
        if n > MAX_PACKED_LABEL_LEN {
            return None;
        }
        let mut bytes: Vec<u8> = Vec::new();
        let mut i: usize = 0;
        while i < 32 - n
            invariant
                n <= MAX_PACKED_LABEL_LEN,
                i <= 32 - n,
                bytes@.len() == i,
                forall|j: int| 0 <= j < i ==> bytes@[j] == 0,
            decreases 32 - n - i,
        {
            bytes.push(0u8);
            i = i + 1;
        }
        let ghost zeros = bytes@;
        let mut j: usize = 0;
        while j < n
            invariant
                n <= MAX_PACKED_LABEL_LEN,
                n == label@.len(),
                j <= n,
                zeros.len() == 32 - n,
                forall|q: int| 0 <= q < zeros.len() ==> zeros[q] == 0,
                bytes@.len() == 32 - n + j,
                bytes@.subrange(0, 32 - n) == zeros,
                forall|q: int| 0 <= q < j ==> '\0' <= #[trigger] label@[q] <= '\u{7f}',
                be_bytes_value(bytes@.skip(32 - n)) == ascii_pack_value(label@.take(j as int)),
            decreases n - j,
        {
            let c = label.get_char(j);
            let u: u32 = c as u32;
            if u > 127 {
                proof {
                    assert(label@[j as int] > '\u{7f}');
                }
                return None;
            }
            let ghost pre = bytes@;
            bytes.push(u as u8);
            proof {
                assert(bytes@.subrange(0, 32 - n) =~= pre.subrange(0, 32 - n));
                assert(bytes@.skip(32 - n).drop_last() =~= pre.skip(32 - n));
                assert(bytes@.skip(32 - n).last() == u as u8);
                assert(label@.take(j + 1).drop_last() =~= label@.take(j as int));
                assert(label@.take(j + 1).last() == label@[j as int]);
                assert((u as u8) as nat == c as nat);
            }
            j = j + 1;
        }
        proof {
            assert(label@.take(n as int) =~= label@);
            assert(bytes@ =~= zeros + bytes@.skip(32 - n));
            lemma_be_bytes_value_leading_zeros(zeros, bytes@.skip(32 - n));
            assert(vstd::utf8::is_ascii_chars(label@));
            lemma_ascii_pack_below_prime(label@);
        }
        Some(Felt::from_canonical_bytes(bytes))
    }
}

/// The packed value of an encodable label lies below the prime: it fits in
/// 31 bytes.
proof fn lemma_ascii_pack_below_prime(s: Seq<char>)
    requires
        s.len() <= 31,
        vstd::utf8::is_ascii_chars(s),
    ensures
        ascii_pack_value(s) < stark_prime(),
{
    lemma_ascii_pack_is_byte_value(s);
    lemma_short_be_bytes_below_prime(s.map(|i: int, c: char| c as u8));
}

proof fn lemma_ascii_pack_is_byte_value(s: Seq<char>)
    requires
        vstd::utf8::is_ascii_chars(s),
    ensures
        ascii_pack_value(s) == be_bytes_value(s.map(|i: int, c: char| c as u8)),
    decreases s.len(),
{
    if s.len() > 0 {
        assert(vstd::utf8::is_ascii_chars(s.drop_last())) by {
            assert(forall|i: int|
                0 <= i < s.drop_last().len() ==> #[trigger] s.drop_last()[i] == s[i]);
        }
        lemma_ascii_pack_is_byte_value(s.drop_last());
        assert(s.map(|i: int, c: char| c as u8).drop_last() =~= s.drop_last().map(
            |i: int, c: char| c as u8,
        ));
    }
}

} // verus!

//! Verified byte-level text helpers: ASCII lowercasing, reversal and
//! comparison, together with the facts about them that the transcoder's
//! round-trip arguments rest on.

use vstd::prelude::*;
use vstd::utf8::*;

verus! {

/// ASCII lowercasing of a single byte; bytes outside `b'A'..=b'Z'` are kept.
pub open spec fn lower_byte(b: u8) -> u8 {
    if 65 <= b && b <= 90 {
        (b + 32) as u8
    } else {
        b
    }
}

/// ASCII lowercasing of a byte sequence.
pub open spec fn spec_lower(s: Seq<u8>) -> Seq<u8> {
    s.map(|i: int, b: u8| lower_byte(b))
}

/// The byte sequence read back to front.
pub open spec fn spec_reverse(s: Seq<u8>) -> Seq<u8> {
    Seq::new(s.len(), |i: int| s[s.len() - 1 - i])
}

/// ASCII-lowercases a byte string.
pub fn lower_bytes(v: &[u8]) -> (r: Vec<u8>)
    ensures
        r@ == spec_lower(v@),
{
    let mut r: Vec<u8> = Vec::new();
    let mut i: usize = 0;
    while i < v.len()
        invariant
            i <= v@.len(),
            r@ == spec_lower(v@.subrange(0, i as int)),
        decreases v@.len() - i,
    {
        let b = v[i];
        if 65 <= b && b <= 90 {
            r.push(b + 32);
        } else {
            r.push(b);
        }
        i = i + 1;
        proof {
            assert(r@ =~= spec_lower(v@.subrange(0, i as int)));
        }
    }
    proof {
        assert(v@.subrange(0, v@.len() as int) =~= v@);
    }
    r
}

/// Reverses a byte string.
pub fn reverse_bytes(v: &[u8]) -> (r: Vec<u8>)
    ensures
        r@ == spec_reverse(v@),
{
    let mut r: Vec<u8> = Vec::new();
    let mut i: usize = v.len();
    while i > 0
        invariant
            i <= v@.len(),
            r@ == spec_reverse(v@).subrange(0, v@.len() - i),
        decreases i,
    {
        i = i - 1;
        r.push(v[i]);
        proof {
            assert(r@ =~= spec_reverse(v@).subrange(0, v@.len() - i));
        }
    }
    proof {
        assert(spec_reverse(v@).subrange(0, v@.len() as int) =~= spec_reverse(v@));
    }
    r
}

/// Compares two byte strings for equality.
pub fn bytes_eq(a: &[u8], b: &[u8]) -> (r: bool)
    ensures
        r == (a@ == b@),
{
    if a.len() != b.len() {
        proof {
            assert(a@.len() != b@.len());
        }
        return false;
    }
    let mut i: usize = 0;
    while i < a.len()
        invariant
            i <= a@.len(),
            a@.len() == b@.len(),
            forall|j: int| 0 <= j < i ==> a@[j] == b@[j],
        decreases a@.len() - i,
    {
        if a[i] != b[i] {
            return false;
        }
        i = i + 1;
    }
    proof {
        assert(a@ =~= b@);
    }
    true
}

/// Lowercasing twice is the same as lowercasing once.
pub proof fn lemma_lower_idempotent(s: Seq<u8>)
    ensures
        spec_lower(spec_lower(s)) == spec_lower(s),
{
    assert(spec_lower(spec_lower(s)) =~= spec_lower(s));
}

/// ASCII lowercasing maps a valid UTF-8 byte string to a valid UTF-8 byte
/// string: it only rewrites bytes below 0x80, each into another byte below
/// 0x80, and leaves every byte of a multi-byte scalar unchanged.
pub proof fn lemma_lower_preserves_valid_utf8(b: Seq<u8>)
    requires
        valid_utf8(b),
    ensures
        valid_utf8(spec_lower(b)),
    decreases b.len(),
{
    if b.len() != 0 {
        let lb = spec_lower(b);
        let k = length_of_first_scalar(b);
        assert(valid_first_scalar(b));
        if is_leading_byte_width_1(b[0]) {
            assert(lb[0] == lower_byte(b[0]));
            assert(is_leading_byte_width_1(lb[0]));
            assert(decode_first_codepoint(lb) == codepoint_width_1(lb[0]));
            let x = lb[0];
            assert((x & 0x7f) <= 0x7f) by (bit_vector);
            assert(not_surrogate(decode_first_codepoint(lb)));
            assert(valid_first_scalar(lb));
            assert(length_of_first_scalar(lb) == 1);
        } else {
            // A multi-byte scalar consists of a leading byte at or above 0xc0
            // and continuation bytes in 0x80..=0xbf; none is in b'A'..=b'Z',
            // so lowercasing leaves the whole scalar unchanged.
            assert(lb[0] == b[0]);
            assert(forall|j: int|
                1 <= j < k ==> is_continuation_byte(b[j]) && #[trigger] lb[j] == b[j]);
            assert(valid_leading_and_continuation_bytes_first_codepoint(lb));
            assert(decode_first_codepoint(lb) == decode_first_codepoint(b));
            assert(length_of_first_codepoint(lb) == length_of_first_codepoint(b));
            assert(valid_first_scalar(lb));
        }
        assert(pop_first_scalar(lb) =~= spec_lower(pop_first_scalar(b)));
        lemma_lower_preserves_valid_utf8(pop_first_scalar(b));
    } else {
        assert(spec_lower(b).len() == 0);
    }
}

} // verus!

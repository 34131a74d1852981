//! The prefix-flip transcoder over the checksummed text codec.
//!
//! A transcoder is configured with a public prefix and a checksum variant.
//! Text that already parses under the public prefix (or under its reversal,
//! the internal prefix) is already canonical and passes through unchanged;
//! any other text is lowercased and wrapped under the internal prefix, so the
//! wrapped form can never be mistaken for text of the public namespace.

use vstd::prelude::*;
use vstd::slice::slice_to_vec;
use vstd::utf8::{decode_utf8, encode_utf8};

use crate::codec::{
    b32_of, b32dec_of, dec_of, decode_checked, enc_of, encode_checked, has_upper, lossy_of,
    lossy_string, regroup_checked, Variant,
};
use crate::text::{
    bytes_eq, lemma_lower_idempotent, lemma_lower_preserves_valid_utf8, lower_bytes,
    reverse_bytes, spec_lower, spec_reverse,
};

verus! {

/// A configured transcoder: the public prefix, its reversal, and the
/// checksum variant used when wrapping.
pub struct Bech {
    /// The configured public prefix, as raw bytes.
    pub prefix: Vec<u8>,
    /// The internal prefix: the public prefix read back to front, computed
    /// once at construction.
    pub internal: Vec<u8>,
    /// The checksum variant used when wrapping plain text.
    pub variant: Variant,
}

/// After a successful wrap of `input`, the codec parses the wrapped string
/// back into the internal prefix, the regrouped lowercased payload and the
/// configured variant, and regrouping restores that payload.
/// `Bech::canonicalize` establishes this for every input it wraps.
pub open spec fn wrap_round_trips(b: Bech, input: Seq<char>) -> bool {
    let low = spec_lower(encode_utf8(input));
    match enc_of(b.internal@, low, b.variant) {
        Some(s) => {
            &&& !has_upper(b.internal@) ==> dec_of(s) == Some(
                (b.internal@, b32_of(low), b.variant),
            )
            &&& b32dec_of(b32_of(low)) == Some(low)
        },
        None => true,
    }
}

impl Bech {
    /// The canonical bytes that `canonicalize` returns for `input`, if any.
    pub open spec fn spec_canonicalize(&self, input: Seq<char>) -> Option<Seq<u8>> {
        match dec_of(input) {
            Some(t) => if t.0 == self.prefix@ || t.0 == self.internal@ {
                Some(encode_utf8(input))
            } else {
                self.spec_wrap(input)
            },
            None => self.spec_wrap(input),
        }
    }

    /// Wrapping plain text: its UTF-8 bytes are ASCII-lowercased and encoded
    /// as the payload of a fresh checksummed string under the internal
    /// prefix.
    pub open spec fn spec_wrap(&self, input: Seq<char>) -> Option<Seq<u8>> {
        match enc_of(self.internal@, spec_lower(encode_utf8(input)), self.variant) {
            Some(s) => Some(encode_utf8(s)),
            None => None,
        }
    }

    /// The human text that `humanize` returns for `canonical`, if any.
    pub open spec fn spec_humanize(&self, canonical: Seq<u8>) -> Option<Seq<char>> {
        let text = lossy_of(canonical);
        match dec_of(text) {
            Some(t) => if t.0 == self.prefix@ {
                Some(text)
            } else if t.0 == self.internal@ {
                match b32dec_of(t.1) {
                    Some(payload) => Some(lossy_of(payload)),
                    None => None,
                }
            } else {
                None
            },
            None => match enc_of(self.prefix@, canonical, self.variant) {
                Some(s) => Some(s),
                None => None,
            },
        }
    }

    /// Creates a transcoder for the original checksum generation.
    pub fn new_b32(prefix: &str) -> (r: Self)
        ensures
            r.prefix@ == encode_utf8(prefix@),
            r.internal@ == spec_reverse(encode_utf8(prefix@)),
            r.variant == Variant::Bech32,
    {
        let prefix_bytes = slice_to_vec(prefix.as_bytes());
        let internal = reverse_bytes(prefix_bytes.as_slice());
        Bech { prefix: prefix_bytes, internal, variant: Variant::Bech32 }
    }

    /// Creates a transcoder for the amended checksum generation.
    pub fn new_b32m(prefix: &str) -> (r: Self)
        ensures
            r.prefix@ == encode_utf8(prefix@),
            r.internal@ == spec_reverse(encode_utf8(prefix@)),
            r.variant == Variant::Bech32m,
    {
        let prefix_bytes = slice_to_vec(prefix.as_bytes());
        let internal = reverse_bytes(prefix_bytes.as_slice());
        Bech { prefix: prefix_bytes, internal, variant: Variant::Bech32m }
    }

    /// Converts human text into its canonical byte form.
    ///
    /// Text that parses under the public or the internal prefix is already
    /// canonical: its raw UTF-8 bytes come back unchanged.  Everything else
    /// is lowercased and wrapped under the internal prefix; this fails only
    /// when the internal prefix is one the codec rejects.
    pub fn canonicalize(&self, input: &str) -> (r: Option<Vec<u8>>)
        ensures
            match r {
                Some(v) => self.spec_canonicalize(input@) == Some(v@),
                None => self.spec_canonicalize(input@) is None,
            },
            r is Some && dec_of(input@) is None ==> wrap_round_trips(*self, input@),
    {
        if let Some((hrp, _data, _var)) = decode_checked(input) {
            if bytes_eq(hrp.as_slice(), self.prefix.as_slice()) || bytes_eq(
                hrp.as_slice(),
                self.internal.as_slice(),
            ) {
                return Some(slice_to_vec(input.as_bytes()));
            }
        }
        let lowered = lower_bytes(input.as_bytes());
        match encode_checked(self.internal.as_slice(), lowered.as_slice(), self.variant) {
            Some(s) => Some(slice_to_vec(s.as_str().as_bytes())),
            None => None,
        }
    }

    /// Recovers human text from canonical bytes.
    ///
    /// Bytes that read (lossily, as UTF-8) as a checksummed string of the
    /// public prefix come back as that string; a checksummed string of the
    /// internal prefix is unwrapped back to the plain text it carries.  Bytes
    /// that do not parse at all are encoded afresh under the public prefix.
    pub fn humanize(&self, canonical: &[u8]) -> (r: Option<String>)
        ensures
            match r {
                Some(s) => self.spec_humanize(canonical@) == Some(s@),
                None => self.spec_humanize(canonical@) is None,
            },
    {
        let text = lossy_string(canonical);
        if let Some((hrp, data, _var)) = decode_checked(text.as_str()) {
            if bytes_eq(hrp.as_slice(), self.prefix.as_slice()) {
                return Some(text);
            }
            if bytes_eq(hrp.as_slice(), self.internal.as_slice()) {
                return match regroup_checked(data.as_slice()) {
                    Some(payload) => Some(lossy_string(payload.as_slice())),
                    None => None,
                };
            }
            return None;
        }
        match encode_checked(self.prefix.as_slice(), canonical, self.variant) {
            Some(s) => Some(s),
            None => None,
        }
    }
}

impl Default for Bech {
    /// Creates a transcoder with the default public prefix.
    fn default() -> (r: Self)
        ensures
            r.prefix@ == encode_utf8("cosmwasm"@),
            r.internal@ == spec_reverse(encode_utf8("cosmwasm"@)),
            r.variant == Variant::Bech32,
    {
        Self::new_b32("cosmwasm")
    }
}

/// Pass-through: text that already parses under the configured public prefix
/// is returned by `canonicalize` as exactly its own bytes, and `humanize` of
/// those bytes hands back exactly that text.
pub proof fn lemma_pass_through(b: Bech, y: Seq<char>)
    ensures
        dec_of(y) matches Some(t) ==> (t.0 == b.prefix@ ==> {
            &&& b.spec_canonicalize(y) == Some(encode_utf8(y))
            &&& b.spec_humanize(encode_utf8(y)) == Some(y)
        }),
{
    broadcast use vstd::utf8::encode_utf8_valid_utf8, vstd::utf8::encode_utf8_decode_utf8;

    if dec_of(y) matches Some(t) && t.0 == b.prefix@ {
        assert(lossy_of(encode_utf8(y)) == y);
    }
}

/// Case normalization: two plain texts (texts the codec does not parse)
/// whose UTF-8 bytes agree up to ASCII case are wrapped into the same
/// canonical bytes.
pub proof fn lemma_canonicalize_case_insensitive(b: Bech, x: Seq<char>, y: Seq<char>)
    ensures
        ({
            &&& dec_of(x) is None
            &&& dec_of(y) is None
            &&& spec_lower(encode_utf8(x)) == spec_lower(encode_utf8(y))
        }) ==> b.spec_canonicalize(x) == b.spec_canonicalize(y),
{
}

/// Wrap round trip: plain text (text the codec does not parse) that wraps
/// successfully is unwrapped by `humanize` back to its ASCII-lowercased
/// self, provided the two prefixes differ.
pub proof fn lemma_wrap_unwrap(b: Bech, x: Seq<char>)
    ensures
        ({
            &&& dec_of(x) is None
            &&& b.spec_canonicalize(x) is Some
            &&& wrap_round_trips(b, x)
            &&& !has_upper(b.internal@)
            &&& b.prefix@ != b.internal@
        }) ==> b.spec_humanize(b.spec_canonicalize(x)->Some_0) == Some(
            decode_utf8(spec_lower(encode_utf8(x))),
        ),
{
    broadcast use vstd::utf8::encode_utf8_valid_utf8, vstd::utf8::encode_utf8_decode_utf8;

    let low = spec_lower(encode_utf8(x));
    if dec_of(x) is None && b.spec_canonicalize(x) is Some && wrap_round_trips(b, x) && !has_upper(
        b.internal@,
    ) && b.prefix@ != b.internal@ {
        let s = enc_of(b.internal@, low, b.variant)->Some_0;
        assert(b.spec_canonicalize(x) == Some(encode_utf8(s)));
        assert(lossy_of(encode_utf8(s)) == s);
        assert(dec_of(s) == Some((b.internal@, b32_of(low), b.variant)));
        assert(b32dec_of(b32_of(low)) == Some(low));
        lemma_lower_preserves_valid_utf8(encode_utf8(x));
        assert(lossy_of(low) == decode_utf8(low));
    }
}

/// Idempotence of repeated canonicalization: wrapping plain text, recovering
/// the human form, and canonicalizing again yields the same canonical bytes,
/// as long as neither the input nor the recovered lowercased text is itself
/// text the codec parses.
pub proof fn lemma_canonicalize_idempotent(b: Bech, x: Seq<char>)
    ensures
        ({
            &&& dec_of(x) is None
            &&& b.spec_canonicalize(x) is Some
            &&& wrap_round_trips(b, x)
            &&& !has_upper(b.internal@)
            &&& (b.prefix@ == b.internal@ || dec_of(decode_utf8(spec_lower(encode_utf8(x))))
                is None)
        }) ==> {
            let c1 = b.spec_canonicalize(x);
            let h = b.spec_humanize(c1->Some_0);
            &&& h is Some
            &&& b.spec_canonicalize(h->Some_0) == c1
        },
{
    broadcast use vstd::utf8::encode_utf8_valid_utf8, vstd::utf8::encode_utf8_decode_utf8;

    let low = spec_lower(encode_utf8(x));
    if dec_of(x) is None && b.spec_canonicalize(x) is Some && wrap_round_trips(b, x) && !has_upper(
        b.internal@,
    ) && (b.prefix@ == b.internal@ || dec_of(decode_utf8(low)) is None) {
        let s = enc_of(b.internal@, low, b.variant)->Some_0;
        let c1 = b.spec_canonicalize(x);
        assert(c1 == Some(encode_utf8(s)));
        assert(lossy_of(encode_utf8(s)) == s);
        assert(dec_of(s) == Some((b.internal@, b32_of(low), b.variant)));
        if b.prefix@ == b.internal@ {
            // The wrapped string itself parses under the public prefix, so it
            // is handed back whole and passes through the next time.
            assert(b.spec_humanize(c1->Some_0) == Some(s));
            assert(b.spec_canonicalize(s) == Some(encode_utf8(s)));
        } else {
            lemma_wrap_unwrap(b, x);
            let h = decode_utf8(low);
            assert(b.spec_humanize(c1->Some_0) == Some(h));
            // Lowercased bytes of a valid UTF-8 string are valid UTF-8 and
            // already lowercase, so re-wrapping encodes the same payload.
            lemma_lower_preserves_valid_utf8(encode_utf8(x));
            vstd::utf8::decode_utf8_encode_utf8(low);
            assert(encode_utf8(h) == low);
            lemma_lower_idempotent(encode_utf8(x));
            assert(spec_lower(low) == low);
            assert(b.spec_canonicalize(h) == Some(encode_utf8(s)));
        }
    }
}

} // verus!

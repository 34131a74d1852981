//! Trusted boundary around the checksummed-text codec.
//!
//! The codec itself comes from the `bech32` crate: it joins a prefix, a
//! payload regrouped into 5-bit values, and a checksum into one text string,
//! and parses such strings back.  Each function here wraps one call into that
//! crate (plus the plain conversions at its edge) and states, over named
//! results, what the crate's source shows about the call.  Everything that
//! decides between prefixes, lowercases, reverses or compares is verified
//! elsewhere in this library.

use bech32::{FromBase32, ToBase32};
use vstd::prelude::*;
use vstd::utf8::{decode_utf8, valid_utf8};

verus! {

/// Checksum generation of the text encoding.  The two generations use
/// different checksum constants and must never be conflated.
#[derive(Clone, Copy, PartialEq, Eq, Structural, Debug)]
pub enum Variant {
    /// The original checksum generation.
    Bech32,
    /// The amended checksum generation.
    Bech32m,
}

/// What `bech32::encode` returns for a prefix (as raw bytes), a byte payload
/// and a variant: the checksummed text string, or nothing when the prefix is
/// rejected.
pub uninterp spec fn enc_of(hrp: Seq<u8>, payload: Seq<u8>, variant: Variant) -> Option<Seq<char>>;

/// What `bech32::decode` returns for a text string: the lowercased prefix as
/// raw bytes, the 5-bit data values with the checksum removed, and the
/// variant the checksum matched; or nothing when the string does not parse.
pub uninterp spec fn dec_of(text: Seq<char>) -> Option<(Seq<u8>, Seq<u8>, Variant)>;

/// What `ToBase32` for byte slices returns: the payload regrouped into 5-bit
/// values, zero-padded to a whole number of values.
pub uninterp spec fn b32_of(payload: Seq<u8>) -> Seq<u8>;

/// What `FromBase32` for byte vectors returns: the 5-bit values regrouped
/// into bytes, or nothing when they do not end on a byte boundary with zero
/// padding.
pub uninterp spec fn b32dec_of(groups: Seq<u8>) -> Option<Seq<u8>>;

/// What `String::from_utf8_lossy` returns on bytes that are not valid UTF-8:
/// the text with every invalid sequence replaced by the replacement
/// character.
pub uninterp spec fn lossy_raw(bytes: Seq<u8>) -> Seq<char>;

/// What `String::from_utf8_lossy` returns: valid UTF-8 is decoded as it
/// stands, anything else goes through replacement.
pub open spec fn lossy_of(bytes: Seq<u8>) -> Seq<char> {
    if valid_utf8(bytes) {
        decode_utf8(bytes)
    } else {
        lossy_raw(bytes)
    }
}

/// True of the byte strings that the codec accepts as a prefix: between 1 and
/// 83 bytes, all in the printable ASCII range 33..=126, not mixing upper and
/// lower case.
pub open spec fn hrp_valid(hrp: Seq<u8>) -> bool {
    &&& 1 <= hrp.len() <= 83
    &&& forall|i: int| 0 <= i < hrp.len() ==> 33 <= #[trigger] hrp[i] <= 126
    &&& !(has_upper(hrp) && has_lower(hrp))
}

/// True when some byte is an ASCII uppercase letter.
pub open spec fn has_upper(s: Seq<u8>) -> bool {
    exists|i: int| 0 <= i < s.len() && 65 <= #[trigger] s[i] <= 90
}

/// True when some byte is an ASCII lowercase letter.
pub open spec fn has_lower(s: Seq<u8>) -> bool {
    exists|i: int| 0 <= i < s.len() && 97 <= #[trigger] s[i] <= 122
}

/// Relies on `bech32::encode` together with `ToBase32` for byte slices: the
/// payload is regrouped into 5-bit values and joined with the prefix and a
/// checksum into one text string.  Encoding succeeds exactly when the prefix
/// passes the codec's prefix check (`hrp_valid`); the data part has no length
/// limit.  For a prefix without uppercase letters, `bech32::decode` parses
/// the result back into the same prefix, the same 5-bit groups and the same
/// variant, and regrouping those 5-bit groups restores the payload.
#[verifier::external_body]
pub(crate) fn encode_checked(hrp: &[u8], payload: &[u8], variant: Variant) -> (r: Option<String>)
    ensures
        r matches Some(s) ==> enc_of(hrp@, payload@, variant) == Some(s@),
        r is None ==> enc_of(hrp@, payload@, variant) is None,
        r is Some <==> hrp_valid(hrp@),
        r matches Some(s) ==> (!has_upper(hrp@) ==> dec_of(s@) == Some(
            (hrp@, b32_of(payload@), variant),
        )),
        r is Some ==> b32dec_of(b32_of(payload@)) == Some(payload@),
{
    let hrp_str = String::from_utf8_lossy(hrp);
    let ext = match variant {
        Variant::Bech32 => bech32::Variant::Bech32,
        Variant::Bech32m => bech32::Variant::Bech32m,
    };
    match bech32::encode(hrp_str.as_ref(), payload.to_base32(), ext) {
        Ok(s) => Some(s),
        Err(_) => None,
    }
}

/// Relies on `bech32::decode`: it splits the string at the last separator,
/// checks prefix, character set, case and checksum, and returns the
/// lowercased prefix, the 5-bit data values with the checksum removed, and
/// the variant the checksum matched.
#[verifier::external_body]
pub(crate) fn decode_checked(text: &str) -> (r: Option<(Vec<u8>, Vec<u8>, Variant)>)
    ensures
        r matches Some(t) ==> dec_of(text@) == Some((t.0@, t.1@, t.2)),
        r is None ==> dec_of(text@) is None,
        r matches Some(t) ==> forall|i: int| 0 <= i < t.1@.len() ==> #[trigger] t.1@[i] < 32,
{
    match bech32::decode(text) {
        Ok((h, d, v)) => {
            let dv: Vec<u8> = d.into_iter().map(|x| x.to_u8()).collect();
            let vv = match v {
                bech32::Variant::Bech32 => Variant::Bech32,
                bech32::Variant::Bech32m => Variant::Bech32m,
            };
            Some((h.into_bytes(), dv, vv))
        },
        Err(_) => None,
    }
}

/// Relies on `FromBase32` for byte vectors (`bech32::convert_bits`): 5-bit
/// values are regrouped into bytes, failing when they leave more than a
/// byte's worth of padding or any non-zero padding bit.
#[verifier::external_body]
pub(crate) fn regroup_checked(groups: &[u8]) -> (r: Option<Vec<u8>>)
    ensures
        (forall|i: int| 0 <= i < groups@.len() ==> #[trigger] groups@[i] < 32) ==> (
        match r {
            Some(b) => b32dec_of(groups@) == Some(b@),
            None => b32dec_of(groups@) is None,
        }),
{
    let u5s: Result<Vec<bech32::u5>, bech32::Error> = groups.iter().map(
        |g| bech32::u5::try_from_u8(*g),
    ).collect();
    match u5s {
        Ok(v) => match Vec::<u8>::from_base32(&v) {
            Ok(b) => Some(b),
            Err(_) => None,
        },
        Err(_) => None,
    }
}

/// Relies on `String::from_utf8_lossy`: valid UTF-8 input is returned
/// unchanged, and every invalid sequence is replaced with the replacement
/// character, so the result is a pure function of the input bytes.
#[verifier::external_body]
pub(crate) fn lossy_string(bytes: &[u8]) -> (r: String)
    ensures
        r@ == lossy_of(bytes@),
        !valid_utf8(bytes@) ==> r@ == lossy_raw(bytes@),
{
    String::from_utf8_lossy(bytes).into_owned()
}

} // verus!

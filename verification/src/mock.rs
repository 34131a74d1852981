//! A mock address API over the prefix-flip scheme.
//!
//! Unlike the transcoder in [`crate::bech`], this API unwraps canonical text
//! of the public prefix into its payload bytes when canonicalizing, insists
//! on the original checksum generation, and rejects checksummed text of any
//! other prefix instead of wrapping it.

use vstd::prelude::*;
use vstd::slice::slice_to_vec;
use vstd::utf8::encode_utf8;

use crate::codec::{
    b32dec_of, dec_of, decode_checked, enc_of, encode_checked, lossy_of, lossy_string,
    regroup_checked, Variant,
};
use crate::text::{bytes_eq, lower_bytes, reverse_bytes, spec_lower, spec_reverse};

verus! {

/// Why an address operation was refused.
#[derive(Clone, Copy, PartialEq, Eq, Structural, Debug)]
pub enum ApiError {
    /// `addr_canonicalize` could not produce canonical bytes.
    InvalidInput,
    /// `addr_humanize` could not recover a human string.
    InvalidCanonicalAddress,
    /// `addr_validate` found the input differs from its normalized form.
    AddressNotNormalized,
}

/// A mock address API configured with a public prefix and its reversal.
#[derive(Clone)]
pub struct MockApi {
    /// The prefix used to recognize and to rebuild canonical address text.
    pub bech32_prefix: Vec<u8>,
    /// The prefix used to wrap text that is not address text, computed once
    /// at construction as the public prefix read back to front.
    pub bech32_internal_prefix: Vec<u8>,
}

impl MockApi {
    /// The canonical bytes that `addr_canonicalize` returns, if any.
    ///
    /// Address text of the public prefix under the original checksum
    /// generation is unwrapped into its payload bytes; text the codec does
    /// not parse is lowercased and wrapped under the internal prefix; any
    /// other parse is refused.
    pub open spec fn spec_addr_canonicalize(&self, input: Seq<char>) -> Option<Seq<u8>> {
        match dec_of(input) {
            Some(t) => if t.0 == self.bech32_prefix@ && t.2 == Variant::Bech32 {
                match b32dec_of(t.1) {
                    Some(payload) => Some(payload),
                    None => None,
                }
            } else {
                None
            },
            None => match enc_of(
                self.bech32_internal_prefix@,
                spec_lower(encode_utf8(input)),
                Variant::Bech32,
            ) {
                Some(s) => Some(encode_utf8(s)),
                None => None,
            },
        }
    }

    /// The human text that `addr_humanize` returns, if any.
    ///
    /// Bytes reading as wrapped text of the internal prefix under the
    /// original checksum generation are unwrapped back to the plain text
    /// they carry; a parse of any other prefix under that generation is
    /// refused.  Bytes that do not parse at all — including text under the
    /// other checksum generation, which is opaque payload here and is never
    /// reinterpreted — are encoded afresh under the public prefix.
    pub open spec fn spec_addr_humanize(&self, canonical: Seq<u8>) -> Option<Seq<char>> {
        let text = lossy_of(canonical);
        match dec_of(text) {
            Some(t) => if t.2 == Variant::Bech32 {
                if t.0 == self.bech32_internal_prefix@ {
                    match b32dec_of(t.1) {
                        Some(payload) => Some(lossy_of(payload)),
                        None => None,
                    }
                } else {
                    None
                }
            } else {
                self.spec_rebuild(canonical)
            },
            None => self.spec_rebuild(canonical),
        }
    }

    /// Rebuilding a human form from raw canonical bytes: they become the
    /// payload of a fresh checksummed string under the public prefix.
    pub open spec fn spec_rebuild(&self, canonical: Seq<u8>) -> Option<Seq<char>> {
        match enc_of(self.bech32_prefix@, canonical, Variant::Bech32) {
            Some(s) => Some(s),
            None => None,
        }
    }

    /// Creates the API with a user-defined public prefix.
    pub fn new_with_bech32_prefix(bech32_prefix: &str) -> (r: Self)
        ensures
            r.bech32_prefix@ == encode_utf8(bech32_prefix@),
            r.bech32_internal_prefix@ == spec_reverse(encode_utf8(bech32_prefix@)),
    {
        let prefix_bytes = slice_to_vec(bech32_prefix.as_bytes());
        let internal = reverse_bytes(prefix_bytes.as_slice());
        MockApi { bech32_prefix: prefix_bytes, bech32_internal_prefix: internal }
    }

    /// Canonicalizes the address.
    pub fn addr_canonicalize(&self, input: &str) -> (r: Result<Vec<u8>, ApiError>)
        ensures
            match r {
                Ok(v) => self.spec_addr_canonicalize(input@) == Some(v@),
                Err(e) => self.spec_addr_canonicalize(input@) is None && e
                    == ApiError::InvalidInput,
            },
    {
        if let Some((hrp, data, var)) = decode_checked(input) {
            if bytes_eq(hrp.as_slice(), self.bech32_prefix.as_slice()) && matches!(
                var,
                Variant::Bech32,
            ) {
                if let Some(payload) = regroup_checked(data.as_slice()) {
                    return Ok(payload);
                }
            }
            return Err(ApiError::InvalidInput);
        }
        let lowered = lower_bytes(input.as_bytes());
        match encode_checked(
            self.bech32_internal_prefix.as_slice(),
            lowered.as_slice(),
            Variant::Bech32,
        ) {
            Some(s) => Ok(slice_to_vec(s.as_str().as_bytes())),
            None => Err(ApiError::InvalidInput),
        }
    }

    /// Humanizes the canonical address.
    pub fn addr_humanize(&self, canonical: &[u8]) -> (r: Result<String, ApiError>)
        ensures
            match r {
                Ok(s) => self.spec_addr_humanize(canonical@) == Some(s@),
                Err(e) => self.spec_addr_humanize(canonical@) is None && e
                    == ApiError::InvalidCanonicalAddress,
            },
    {
        let text = lossy_string(canonical);
        if let Some((hrp, data, var)) = decode_checked(text.as_str()) {
            if matches!(var, Variant::Bech32) {
                if bytes_eq(hrp.as_slice(), self.bech32_internal_prefix.as_slice()) {
                    return match regroup_checked(data.as_slice()) {
                        Some(payload) => Ok(lossy_string(payload.as_slice())),
                        None => Err(ApiError::InvalidCanonicalAddress),
                    };
                }
                return Err(ApiError::InvalidCanonicalAddress);
            }
        }
        match encode_checked(self.bech32_prefix.as_slice(), canonical, Variant::Bech32) {
            Some(s) => Ok(s),
            None => Err(ApiError::InvalidCanonicalAddress),
        }
    }

    /// Validates the address: it must canonicalize, humanize back, and equal
    /// its own normalized form.
    pub fn addr_validate(&self, input: &str) -> (r: Result<String, ApiError>)
        ensures
            match self.spec_addr_canonicalize(input@) {
                None => r matches Err(e) && e == ApiError::InvalidInput,
                Some(c) => match self.spec_addr_humanize(c) {
                    None => r matches Err(e) && e == ApiError::InvalidCanonicalAddress,
                    Some(h) => if h == input@ {
                        r matches Ok(s) && s@ == input@
                    } else {
                        r matches Err(e) && e == ApiError::AddressNotNormalized
                    },
                },
            },
    {
        let canonical = match self.addr_canonicalize(input) {
            Ok(c) => c,
            Err(e) => {
                return Err(e);
            },
        };
        let normalized = match self.addr_humanize(canonical.as_slice()) {
            Ok(h) => h,
            Err(e) => {
                return Err(e);
            },
        };
        let same = bytes_eq(normalized.as_str().as_bytes(), input.as_bytes());
        proof {
            // Equal UTF-8 encodings decode to the same character sequences.
            vstd::utf8::encode_utf8_decode_utf8(normalized@);
            vstd::utf8::encode_utf8_decode_utf8(input@);
        }
        if !same {
            return Err(ApiError::AddressNotNormalized);
        }
        Ok(String::from_str(input))
    }
}

impl Default for MockApi {
    /// Creates the API with the default public prefix.
    fn default() -> (r: Self)
        ensures
            r.bech32_prefix@ == encode_utf8("mockapi"@),
            r.bech32_internal_prefix@ == spec_reverse(encode_utf8("mockapi"@)),
    {
        Self::new_with_bech32_prefix("mockapi")
    }
}

} // verus!

//! Reversible, checksum-validating transcoding between human-readable text
//! identifiers and a canonical byte representation.
//!
//! The library is built around a prefix-flip scheme: a configured public
//! prefix marks text that already is in canonical form, while its character
//! reversal (the internal prefix) marks plain text that was wrapped into the
//! checksummed encoding so it can travel as bytes.  The checksummed text
//! encoding itself is provided by the `bech32` crate behind a small trusted
//! boundary; everything that decides, compares and transforms is verified.

pub mod bech;
pub mod codec;
pub mod mock;
pub mod text;

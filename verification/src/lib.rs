//! Byte-oriented parsing and fingerprinting primitives for regulatory
//! filing bundles: accession identifier decoding, document boundary
//! discovery, tag content extraction, FNV-1a content fingerprinting and
//! line counting, with data-parallel batch forms.

pub mod accession;
pub mod batch;
pub mod boundaries;
pub mod fingerprint;
pub mod lines;
pub mod search;
pub mod tags;

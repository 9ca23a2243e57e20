//! Aurora Font Library
//!
//! Decoding of the binary container used by TrueType and OpenType font
//! files: signature classification, table-directory parsing and per-table
//! checksum validation over a caller-supplied byte buffer.

pub mod error;
pub mod io;
pub mod common;
pub mod optional;

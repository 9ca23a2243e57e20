//! The sink: what a consumer of decoded font data implements.

use vstd::prelude::*;
use crate::common::snft::SnftTable;

verus! {

/// A sink for the output of font decoding.
///
/// The decoder hands the parsed table directory to `consume_snft` and
/// then calls `finish`, which makes the sink's output of it. What the
/// output is, and when either step fails, is the sink's own affair: the
/// decoder knows neither the output type nor the error type.
pub trait FontSink {
    /// What the sink produces when decoding finishes.
    type Output;

    /// The error that the sink may return.
    type Err;

    /// Consumes a table directory. An error aborts decoding.
    fn consume_snft(&mut self, snft: SnftTable) -> Result<(), Self::Err>;

    /// Finishes the sink and produces its output.
    fn finish(self) -> Result<Self::Output, Self::Err>;
}

} // verus!

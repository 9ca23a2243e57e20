//! A plain font representation that serves as the library's own sink.

use vstd::prelude::*;
use core::convert::Infallible;
use crate::common::snft::{SnftTable, SnftTableEntry};
use crate::optional::sink::FontSink;

verus! {

/// A font as the convenience decoder builds it: the table records it was
/// given, in the order in which they came.
pub struct Font {
    /// The table records of the font.
    pub snft_tables: Vec<SnftTableEntry>,
    /// SVG data that belongs to the font, if any.
    pub svg_data: Option<Vec<u8>>,
}

impl Font {
    /// Creates a font without tables and without SVG data.
    pub fn new() -> (font: Self)
        ensures
            font.snft_tables@ == Seq::<SnftTableEntry>::empty(),
            font.svg_data is None,
    {
        Self { snft_tables: Vec::new(), svg_data: None }
    }
}

impl FontSink for Font {
    type Output = Self;

    type Err = Infallible;

    /// Adds the records of `snft` behind those the font already holds.
    /// This never fails.
    fn consume_snft(&mut self, snft: SnftTable) -> (res: Result<(), Infallible>)
        ensures
            res is Ok,
            final(self).snft_tables@ == old(self).snft_tables@ + snft.tables@,
            final(self).svg_data == old(self).svg_data,
    {
        let mut tables: Vec<SnftTableEntry> = snft.tables;
        self.snft_tables.append(&mut tables);
        Ok(())
    }

    /// Returns the font itself. This never fails.
    fn finish(self) -> (res: Result<Font, Infallible>)
        ensures
            res == Ok::<Font, Infallible>(self),
    {
        Ok(self)
    }
}

} // verus!

//! The table directory of a font file: its header, its table records, the
//! parser that reads them from a stream, and the validation of each
//! table's checksum against the bytes the record points at.

use vstd::prelude::*;
use rayon::iter::{IntoParallelRefIterator, ParallelIterator};
use crate::common::checksum::{
    checksum_of, is_summed, lemma_head_ignores_adjustment, lemma_table_checksum_detects_change,
    sum_words, table_checksum,
};
use crate::error::{Error, IoError};
use crate::io::endian::ByteOrder;
use crate::io::stream::{bytes_from, out_of_bounds, FontDataStream, StreamView};

verus! {

/// The table directory of one font: the header and the table records in
/// the order of the file.
#[derive(Debug, Clone, PartialEq, Eq, Hash)]
pub struct SnftTable {
    /// Font file header.
    pub header: SnftTableHeader,
    /// The table records, in file order.
    pub tables: Vec<SnftTableEntry>,
}

/// The header of a table directory.
///
/// The last three fields are redundant search aids of the format. They
/// are kept as read and never recomputed.
#[derive(Debug, Clone, PartialEq, Eq, Hash)]
pub struct SnftTableHeader {
    /// Version of the font format.
    pub version: u32,
    /// Number of table records that follow the header.
    pub num_tables: u16,
    /// Search range for table records.
    pub search_range: u16,
    /// Entry selector for table records.
    pub entry_selector: u16,
    /// Range shift for table records.
    pub range_shift: u16,
}

/// One table record: which table, where its bytes lie in the file, how
/// many they are and what they must sum to.
#[derive(Debug, Clone, PartialEq, Eq, Hash)]
pub struct SnftTableEntry {
    /// 4-byte tag identifying the table; any four bytes, text or not.
    pub tag: [u8; 4],
    /// Checksum of the table data.
    pub checksum: u32,
    /// Offset of the table data from the start of the file.
    pub offset: u32,
    /// Length of the table data in bytes.
    pub length: u32,
}

/// Tag that marks a font container of this family.
pub const SNFT_TAG: u32 = 0x534E_4654;

/// What a table directory is, mathematically: its header and the
/// sequence of its records.
pub struct DirectoryView {
    pub header: SnftTableHeader,
    pub tables: Seq<SnftTableEntry>,
}

impl View for SnftTable {
    type V = DirectoryView;

    open spec fn view(&self) -> DirectoryView {
        DirectoryView { header: self.header, tables: self.tables@ }
    }
}

/// The text that `String::from_utf8_lossy` makes of `bytes`.
///
/// Bytes that are valid UTF-8 give the characters they encode. Of other
/// bytes the contracts say only that the same bytes give the same text.
pub uninterp spec fn lossy_utf8(bytes: Seq<u8>) -> Seq<char>;

/// Calls `String::from_utf8_lossy` and takes ownership of what it
/// returns. The contract names the text and claims, as the standard
/// library documents, that valid UTF-8 is decoded as it stands.
#[verifier::external_body]
fn lossy_string(bytes: &[u8]) -> (text: String)
    ensures
        text@ == lossy_utf8(bytes@),
        vstd::utf8::valid_utf8(bytes@) ==> text@ == vstd::utf8::decode_utf8(bytes@),
{
    String::from_utf8_lossy(bytes).into_owned()
}

impl SnftTableEntry {
    /// Creates a new table record.
    pub fn new(tag: [u8; 4], checksum: u32, offset: u32, length: u32) -> (entry: Self)
        ensures
            entry == (SnftTableEntry { tag, checksum, offset, length }),
    {
        SnftTableEntry { tag, checksum, offset, length }
    }

    /// Returns the tag as text, with a replacement character wherever
    /// the tag's bytes are not valid UTF-8.
    pub fn tag_as_string(&self) -> (text: String)
        ensures
            text@ == lossy_utf8(self.tag@),
            vstd::utf8::valid_utf8(self.tag@) ==> text@ == vstd::utf8::decode_utf8(self.tag@),
    {
        lossy_string(self.tag.as_slice())
    }

    /// Checks whether the record has the tag `tag`.
    pub fn is_tag(&self, tag: &[u8; 4]) -> (same: bool)
        ensures
            same <==> self.tag == *tag,
    {
        let same: bool = self.tag[0] == tag[0] && self.tag[1] == tag[1] && self.tag[2] == tag[2]
            && self.tag[3] == tag[3];
        proof {
            if same {
                assert(self.tag =~= *tag);
            }
        }
        same
    }

    /// Checks whether the record's tag, as text, is `tag`.
    pub fn is_tag_str(&self, tag: &str) -> (same: bool)
        ensures
            same <==> lossy_utf8(self.tag@) == tag@,
            vstd::utf8::valid_utf8(self.tag@) ==> (same <==> vstd::utf8::decode_utf8(self.tag@)
                == tag@),
    {
        let text: String = self.tag_as_string();
        let wanted: String = tag.to_owned();
        text == wanted
    }

    /// Returns the checksum that the record stores.
    pub fn checksum(&self) -> (checksum: u32)
        ensures
            checksum == self.checksum,
    {
        self.checksum
    }

    /// Returns the offset of the table data.
    pub fn offset(&self) -> (offset: u32)
        ensures
            offset == self.offset,
    {
        self.offset
    }

    /// Returns the length of the table data.
    pub fn length(&self) -> (length: u32)
        ensures
            length == self.length,
    {
        self.length
    }

    /// Checks whether `checksum` is the checksum that the record stores.
    pub fn matches_checksum(&self, checksum: u32) -> (same: bool)
        ensures
            same <==> self.checksum == checksum,
    {
        self.checksum == checksum
    }

    /// Computes the checksum of `data`: the sum of its 4-byte big-endian
    /// words with wraparound, whatever the record's tag. A last word of
    /// fewer than four bytes counts with its missing high-order bytes as
    /// zero.
    pub fn compute_checksum(&self, data: &[u8]) -> (sum: u32)
        ensures
            sum == checksum_of(data@),
    {
        sum_words(data, false)
    }
}

/// Computes the checksum of the table that `table` records and whose
/// bytes are `data`. For the `head` table the four bytes of the checksum
/// adjustment, at offsets 8 to 11 of the table, count as zero.
pub fn compute_table_checksum(table: &SnftTableEntry, data: &[u8]) -> (sum: u32)
    ensures
        sum == table_checksum(table.tag, data@),
{
    let head: bool = table.tag[0] == 0x68 && table.tag[1] == 0x65 && table.tag[2] == 0x61
        && table.tag[3] == 0x64;
    sum_words(data, head)
}

/// Whether `index` is the place of the first record of `tables` that is
/// tagged `tag`.
pub open spec fn is_first_tagged(tables: Seq<SnftTableEntry>, tag: [u8; 4], index: int) -> bool {
    &&& 0 <= index < tables.len()
    &&& tables[index].tag == tag
    &&& forall|j: int| 0 <= j < index ==> (#[trigger] tables[j]).tag != tag
}

/// Whether some record of `tables` is tagged `tag`.
pub open spec fn has_tag(tables: Seq<SnftTableEntry>, tag: [u8; 4]) -> bool {
    exists|i: int| 0 <= i < tables.len() && (#[trigger] tables[i]).tag == tag
}

/// The tags of `tables` as text, one for each record, in the order of
/// the records.
pub open spec fn tag_texts(tables: Seq<SnftTableEntry>) -> Seq<Seq<char>> {
    Seq::new(tables.len(), |i: int| lossy_utf8(tables[i].tag@))
}

impl SnftTable {
    /// Retrieves the first table record in directory order that is
    /// tagged `tag`.
    pub fn get_table_by_tag(&self, tag: &[u8; 4]) -> (found: Option<&SnftTableEntry>)
        ensures
            (match found {
                Some(entry) => exists|i: int|
                    is_first_tagged(self.tables@, *tag, i) && *entry == #[trigger] self.tables@[i],
                None => !has_tag(self.tables@, *tag),
            }),
    {
        let mut i: usize = 0;
        while i < self.tables.len()
            invariant
                i <= self.tables@.len(),
                forall|j: int| 0 <= j < i ==> (#[trigger] self.tables@[j]).tag != *tag,
            decreases self.tables@.len() - i,
        {
            if self.tables[i].is_tag(tag) {
                return Some(&self.tables[i]);
            }
            i += 1;
        }
        None
    }

    /// Lists the tags of all table records as text, in directory order.
    /// Records that share a tag each give their own string.
    pub fn list_table_tags(&self) -> (tags: Vec<String>)
        ensures
            tags@.len() == self.tables@.len(),
            forall|i: int|
                0 <= i < tags@.len() ==> (#[trigger] tags@[i])@ == tag_texts(self.tables@)[i],
            forall|i: int|
                0 <= i < tags@.len() && vstd::utf8::valid_utf8(self.tables@[i].tag@) ==> (
                #[trigger] tags@[i])@ == vstd::utf8::decode_utf8(self.tables@[i].tag@),
    {
        let mut tags: Vec<String> = Vec::new();
        let mut i: usize = 0;
        while i < self.tables.len()
            invariant
                i <= self.tables@.len(),
                tags@.len() == i,
                forall|j: int|
                    0 <= j < i ==> (#[trigger] tags@[j])@ == lossy_utf8(self.tables@[j].tag@),
                forall|j: int|
                    0 <= j < i && vstd::utf8::valid_utf8(self.tables@[j].tag@) ==> (
                    #[trigger] tags@[j])@ == vstd::utf8::decode_utf8(self.tables@[j].tag@),
            decreases self.tables@.len() - i,
        {
            tags.push(self.tables[i].tag_as_string());
            i += 1;
        }
        tags
    }

    /// Returns the number of table records that the directory holds.
    pub fn table_count(&self) -> (count: usize)
        ensures
            count == self.tables@.len(),
    {
        self.tables.len()
    }

    /// Checks whether a table record tagged `tag` exists.
    pub fn has_table(&self, tag: &[u8; 4]) -> (present: bool)
        ensures
            present <==> has_tag(self.tables@, *tag),
    {
        let mut i: usize = 0;
        while i < self.tables.len()
            invariant
                i <= self.tables@.len(),
                forall|j: int| 0 <= j < i ==> (#[trigger] self.tables@[j]).tag != *tag,
            decreases self.tables@.len() - i,
        {
            if self.tables[i].is_tag(tag) {
                return true;
            }
            i += 1;
        }
        false
    }

    /// Validates the checksums of all tables against the bytes of
    /// `stream`, and leaves the stream as it was.
    pub fn validate_checksums(&self, stream: &mut FontDataStream) -> (res: Result<(), Error>)
        ensures
            res == validation(self.tables@, old(stream)@.data),
            final(stream)@ == old(stream)@,
    {
        validate_entries(&self.tables, &*stream)
    }

    /// Returns the version of the font format.
    pub fn version(&self) -> (version: u32)
        ensures
            version == self.header.version,
    {
        self.header.version
    }

    /// Returns the number of tables that the header declares.
    pub fn num_tables(&self) -> (count: u16)
        ensures
            count == self.header.num_tables,
    {
        self.header.num_tables
    }

    /// Returns the search range for table records.
    pub fn search_range(&self) -> (value: u16)
        ensures
            value == self.header.search_range,
    {
        self.header.search_range
    }

    /// Returns the entry selector for table records.
    pub fn entry_selector(&self) -> (value: u16)
        ensures
            value == self.header.entry_selector,
    {
        self.header.entry_selector
    }

    /// Returns the range shift for table records.
    pub fn range_shift(&self) -> (value: u16)
        ensures
            value == self.header.range_shift,
    {
        self.header.range_shift
    }

    /// Returns a reference to all table records.
    pub fn all_tables(&self) -> (tables: &Vec<SnftTableEntry>)
        ensures
            *tables == self.tables,
    {
        &self.tables
    }

    /// Returns a mutable reference to all table records.
    pub fn all_tables_mut(&mut self) -> (tables: &mut Vec<SnftTableEntry>)
        ensures
            *tables == old(self).tables,
            final(self).tables == *final(tables),
            final(self).header == old(self).header,
    {
        &mut self.tables
    }

    /// Checks whether the directory holds no table record.
    pub fn is_empty(&self) -> (empty: bool)
        ensures
            empty <==> self.tables@.len() == 0,
    {
        self.tables.len() == 0
    }
}

/// The least index below `count` at which `holds` is true, or `count` if
/// it is true at none.
pub open spec fn first_where(count: int, holds: spec_fn(int) -> bool) -> int
    decreases count,
{
    if count <= 0 {
        0
    } else {
        let earlier: int = first_where(count - 1, holds);
        if earlier < count - 1 {
            earlier
        } else if holds(count - 1) {
            count - 1
        } else {
            count
        }
    }
}

/// `first_where` finds the least index at which the predicate holds.
pub proof fn lemma_first_where(count: int, holds: spec_fn(int) -> bool)
    requires
        0 <= count,
    ensures
        0 <= first_where(count, holds) <= count,
        first_where(count, holds) < count ==> holds(first_where(count, holds)),
        forall|j: int| 0 <= j < first_where(count, holds) ==> !#[trigger] holds(j),
    decreases count,
{
    if count > 0 {
        lemma_first_where(count - 1, holds);
    }
}

/// An index at which the predicate holds, and before which it holds
/// nowhere, is the one that `first_where` finds.
pub proof fn lemma_first_where_is(count: int, holds: spec_fn(int) -> bool, index: int)
    requires
        0 <= index <= count,
        index < count ==> holds(index),
        forall|j: int| 0 <= j < index ==> !#[trigger] holds(j),
    ensures
        first_where(count, holds) == index,
{
    lemma_first_where(count, holds);
    let found: int = first_where(count, holds);
    if found < index {
    }
}

/// Whether the bytes that `entry` points at run past the end of `data`.
pub open spec fn out_of_range(entry: SnftTableEntry, data: Seq<u8>) -> bool {
    entry.offset + entry.length > data.len()
}

/// The bytes of `data` that `entry` points at.
pub open spec fn table_bytes(entry: SnftTableEntry, data: Seq<u8>) -> Seq<u8>
    recommends
        !out_of_range(entry, data),
{
    data.subrange(entry.offset as int, entry.offset + entry.length)
}

/// The error for a record whose bytes run past the end of `data`: the
/// record's length was asked for, and what `data` holds from the
/// record's offset on was there.
pub open spec fn range_error(entry: SnftTableEntry, data: Seq<u8>) -> Error {
    out_of_bounds(entry.length as nat, bytes_from(data, entry.offset as nat))
}

/// Whether the bytes that `entry` points at sum to the checksum it stores.
pub open spec fn sums_up(entry: SnftTableEntry, data: Seq<u8>) -> bool {
    table_checksum(entry.tag, table_bytes(entry, data)) == entry.checksum
}

/// The error for a record whose bytes do not sum to its checksum.
pub open spec fn mismatch_error(entry: SnftTableEntry, data: Seq<u8>) -> Error {
    Error::Io(
        IoError::ChecksumMismatch {
            table: entry.tag,
            offset: entry.offset as usize,
            expected: entry.checksum,
            found: table_checksum(entry.tag, table_bytes(entry, data)),
        },
    )
}

/// The index of the first record of `tables` that runs past the end of
/// `data`, or the number of records if none does.
pub open spec fn first_out_of_range(tables: Seq<SnftTableEntry>, data: Seq<u8>) -> int {
    first_where(tables.len() as int, |i: int| out_of_range(tables[i], data))
}

/// The index of the first record of `tables` whose bytes do not sum to
/// its checksum, or the number of records if all do.
pub open spec fn first_mismatch(tables: Seq<SnftTableEntry>, data: Seq<u8>) -> int {
    first_where(tables.len() as int, |i: int| !sums_up(tables[i], data))
}

/// The verdict on the records `tables` over the file `data`.
///
/// If any record runs past the end of the file, the verdict is the
/// out-of-bounds error of the first such record, whatever the checksums
/// are. Otherwise it is the mismatch error of the first record whose
/// bytes do not sum to its checksum, or success if there is none.
pub open spec fn validation(tables: Seq<SnftTableEntry>, data: Seq<u8>) -> Result<(), Error> {
    let unreachable: int = first_out_of_range(tables, data);
    let unequal: int = first_mismatch(tables, data);
    if unreachable < tables.len() {
        Err(range_error(tables[unreachable], data))
    } else if unequal < tables.len() {
        Err(mismatch_error(tables[unequal], data))
    } else {
        Ok(())
    }
}

/// Calls rayon's `par_iter`, `map` and `collect`: the checksum of every
/// pair of a record and its bytes is computed on rayon's worker threads,
/// and the results are collected in the order of the pairs.
#[verifier::external_body]
fn checksums_in_parallel(table_slices: &Vec<(&SnftTableEntry, &[u8])>) -> (sums: Vec<u32>)
    ensures
        sums@.len() == table_slices@.len(),
        forall|i: int|
            0 <= i < sums@.len() ==> #[trigger] sums@[i] == table_checksum(
                table_slices@[i].0.tag,
                table_slices@[i].1@,
            ),
{
    table_slices.par_iter().map(|pair| compute_table_checksum(pair.0, pair.1)).collect()
}

/// Validates the records `tables` against the bytes of `stream`.
fn validate_entries(tables: &Vec<SnftTableEntry>, stream: &FontDataStream) -> (res: Result<
    (),
    Error,
>)
    ensures
        res == validation(tables@, stream@.data),
{
    let ghost data: Seq<u8> = stream@.data;
    let ghost unreachable = |i: int| out_of_range(tables@[i], data);
    let ghost unequal = |i: int| !sums_up(tables@[i], data);
    let count: usize = tables.len();

    // Every table is sliced before any checksum is computed, so that the
    // checksums can be computed side by side on slices that nothing writes.
    let mut table_slices: Vec<(&SnftTableEntry, &[u8])> = Vec::with_capacity(count);
    let mut i: usize = 0;
    while i < count
        invariant
            count == tables@.len(),
            data == stream@.data,
            unreachable == |i: int| out_of_range(tables@[i], data),
            i <= count,
            table_slices@.len() == i,
            forall|j: int| 0 <= j < i ==> !out_of_range(#[trigger] tables@[j], data),
            forall|j: int|
                0 <= j < i ==> (#[trigger] table_slices@[j]).0 == tables@[j]
                    && table_slices@[j].1@ == table_bytes(tables@[j], data),
        decreases count - i,
    {
        let table: &SnftTableEntry = &tables[i];
        match stream.slice_at(table.offset as usize, table.length as usize) {
            Ok(slice) => {
                table_slices.push((table, slice));
            },
            Err(e) => {
                proof {
                    lemma_first_where_is(count as int, unreachable, i as int);
                }
                return Err(e);
            },
        }
        i += 1;
    }
    proof {
        lemma_first_where_is(count as int, unreachable, count as int);
    }

    let sums: Vec<u32> = checksums_in_parallel(&table_slices);

    // The results are folded in directory order: the first mismatch in
    // that order is the one reported.
    let mut k: usize = 0;
    while k < count
        invariant
            count == tables@.len(),
            data == stream@.data,
            unequal == |i: int| !sums_up(tables@[i], data),
            first_out_of_range(tables@, data) == count,
            k <= count,
            sums@.len() == count,
            table_slices@.len() == count,
            forall|j: int|
                0 <= j < count ==> (#[trigger] table_slices@[j]).0 == tables@[j]
                    && table_slices@[j].1@ == table_bytes(tables@[j], data),
            forall|j: int|
                0 <= j < count ==> #[trigger] sums@[j] == table_checksum(
                    table_slices@[j].0.tag,
                    table_slices@[j].1@,
                ),
            forall|j: int| 0 <= j < k ==> sums_up(#[trigger] tables@[j], data),
        decreases count - k,
    {
        let table: &SnftTableEntry = &tables[k];
        let computed: u32 = sums[k];
        if computed != table.checksum {
            proof {
                lemma_first_where_is(count as int, unequal, k as int);
            }
            return Err(
                Error::Io(
                    IoError::ChecksumMismatch {
                        table: table.tag,
                        offset: table.offset as usize,
                        expected: table.checksum,
                        found: computed,
                    },
                ),
            );
        }
        k += 1;
    }
    proof {
        lemma_first_where_is(count as int, unequal, count as int);
    }
    Ok(())
}

/// Validates the checksum of every table that `tables` records against
/// the bytes of `stream`, and leaves the stream as it was.
///
/// Every record's range is checked against the buffer before any
/// checksum is compared; the first problem in directory order is the one
/// returned.
pub fn validate_snft_tables(tables: Vec<SnftTableEntry>, stream: &mut FontDataStream) -> (res:
    Result<(), Error>)
    ensures
        res == validation(tables@, old(stream)@.data),
        final(stream)@ == old(stream)@,
{
    validate_entries(&tables, &*stream)
}

/// The directory header that the 12 bytes of `data` at `at` hold: the
/// version in 4 bytes, then the table count, search range, entry selector
/// and range shift in 2 bytes each.
pub open spec fn header_at(data: Seq<u8>, at: int, order: ByteOrder) -> SnftTableHeader {
    SnftTableHeader {
        version: order.u32_of(data.subrange(at, at + 4)),
        num_tables: order.u16_of(data.subrange(at + 4, at + 6)),
        search_range: order.u16_of(data.subrange(at + 6, at + 8)),
        entry_selector: order.u16_of(data.subrange(at + 8, at + 10)),
        range_shift: order.u16_of(data.subrange(at + 10, at + 12)),
    }
}

/// The table record that the 16 bytes of `data` at `at` hold: the tag as
/// it stands, then the checksum, the offset and the length in 4 bytes
/// each.
pub open spec fn entry_at(data: Seq<u8>, at: int, order: ByteOrder) -> SnftTableEntry {
    SnftTableEntry {
        tag: [data[at], data[at + 1], data[at + 2], data[at + 3]],
        checksum: order.u32_of(data.subrange(at + 4, at + 8)),
        offset: order.u32_of(data.subrange(at + 8, at + 12)),
        length: order.u32_of(data.subrange(at + 12, at + 16)),
    }
}

/// What reading a directory header from `stream` gives.
///
/// With 12 bytes or more left it is the header that they hold. With
/// fewer, the read that runs short fails: the 4-byte read of the version
/// if fewer than 4 bytes are left, else a 2-byte read that finds what is
/// left over after the fields before it.
pub open spec fn parsed_header(stream: StreamView) -> Result<SnftTableHeader, Error> {
    let left: nat = stream.remaining();
    if left >= 12 {
        Ok(header_at(stream.data, stream.position as int, stream.order))
    } else if left < 4 {
        Err(out_of_bounds(4, left))
    } else {
        Err(out_of_bounds(2, left % 2))
    }
}

/// Where reading a directory header leaves `stream`: behind the header,
/// or before the field whose read ran short.
pub open spec fn after_header(stream: StreamView) -> StreamView {
    let left: nat = stream.remaining();
    if left >= 12 {
        stream.advanced(12)
    } else if left < 4 {
        stream
    } else {
        stream.advanced((left - left % 2) as nat)
    }
}

/// What reading one table record from `stream` gives: the record that
/// the next 16 bytes hold, or the failure of the 4-byte read that runs
/// short.
pub open spec fn parsed_entry(stream: StreamView) -> Result<SnftTableEntry, Error> {
    let left: nat = stream.remaining();
    if left >= 16 {
        Ok(entry_at(stream.data, stream.position as int, stream.order))
    } else {
        Err(out_of_bounds(4, left % 4))
    }
}

/// Where reading one table record leaves `stream`: behind the record, or
/// before the field whose read ran short.
pub open spec fn after_entry(stream: StreamView) -> StreamView {
    let left: nat = stream.remaining();
    if left >= 16 {
        stream.advanced(16)
    } else {
        stream.advanced((left - left % 4) as nat)
    }
}

/// The first `count` table records that follow a header at the position
/// of `stream`.
pub open spec fn entries_after_header(stream: StreamView, count: nat) -> Seq<SnftTableEntry> {
    Seq::new(
        count,
        |i: int| entry_at(stream.data, stream.position + 12 + 16 * i, stream.order),
    )
}

/// What reading a whole directory from `stream` gives.
///
/// If the header cannot be read, its error. Otherwise the header says how
/// many records follow. If the buffer holds them all, the directory is the
/// header and those records in file order. If it does not, the read of
/// the first field that is not wholly there fails, and no part of the
/// directory is returned.
pub open spec fn parsed_directory(stream: StreamView) -> Result<DirectoryView, Error> {
    match parsed_header(stream) {
        Err(e) => Err(e),
        Ok(header) => {
            let left: nat = stream.advanced(12).remaining();
            if left >= 16 * header.num_tables {
                Ok(
                    DirectoryView {
                        header,
                        tables: entries_after_header(stream, header.num_tables as nat),
                    },
                )
            } else {
                Err(out_of_bounds(4, left % 4))
            }
        },
    }
}

/// Where reading a whole directory leaves `stream`: behind the last
/// record, or before the field whose read ran short.
pub open spec fn after_directory(stream: StreamView) -> StreamView {
    match parsed_header(stream) {
        Err(e) => after_header(stream),
        Ok(header) => {
            let left: nat = stream.advanced(12).remaining();
            if left >= 16 * header.num_tables {
                stream.advanced((12 + 16 * header.num_tables) as nat)
            } else {
                stream.advanced((12 + left - left % 4) as nat)
            }
        },
    }
}

/// Reads a table directory from the stream, starting at its position:
/// the header, then as many table records as the header counts.
///
/// The count is not held against the size of the buffer beforehand. Each
/// field is read with its own bounds check, so a directory that is cut
/// short fails at the first field that is not wholly there, with that
/// read's out-of-bounds error, and no partial directory is returned.
pub fn read_snft(data: &mut FontDataStream) -> (res: Result<SnftTable, Error>)
    ensures
        (match res {
            Ok(table) => parsed_directory(old(data)@) == Ok::<DirectoryView, Error>(table@),
            Err(e) => parsed_directory(old(data)@) == Err::<DirectoryView, Error>(e),
        }),
        final(data)@ == after_directory(old(data)@),
{
    let ghost start: StreamView = data@;
    let mut tables: Vec<SnftTableEntry> = Vec::new();

    let header: SnftTableHeader = match read_snft_header(data) {
        Ok(header) => header,
        Err(e) => {
            return Err(e);
        },
    };

    let count: u16 = header.num_tables;
    let mut i: u16 = 0;
    while i < count
        invariant
            start == old(data)@,
            parsed_header(start) == Ok::<SnftTableHeader, Error>(header),
            count == header.num_tables,
            i <= count,
            start.remaining() >= 12 + 16 * i,
            data@ == start.advanced((12 + 16 * i) as nat),
            tables@ =~= entries_after_header(start, i as nat),
        decreases count - i,
    {
        match read_snft_table_entry(data) {
            Ok(entry) => {
                tables.push(entry);
            },
            Err(e) => {
                return Err(e);
            },
        }
        i += 1;
    }

    Ok(SnftTable { header, tables })
}

/// Reads the directory header from the stream: the version, then the
/// table count, search range, entry selector and range shift.
pub fn read_snft_header(data: &mut FontDataStream) -> (res: Result<SnftTableHeader, Error>)
    ensures
        res == parsed_header(old(data)@),
        final(data)@ == after_header(old(data)@),
{
    let sfnt_version: u32 = match data.read_u32() {
        Ok(v) => v,
        Err(e) => {
            return Err(e);
        },
    };
    let num_tables: u16 = match data.read_u16() {
        Ok(v) => v,
        Err(e) => {
            return Err(e);
        },
    };
    let search_range: u16 = match data.read_u16() {
        Ok(v) => v,
        Err(e) => {
            return Err(e);
        },
    };
    let entry_selector: u16 = match data.read_u16() {
        Ok(v) => v,
        Err(e) => {
            return Err(e);
        },
    };
    let range_shift: u16 = match data.read_u16() {
        Ok(v) => v,
        Err(e) => {
            return Err(e);
        },
    };

    Ok(
        SnftTableHeader {
            version: sfnt_version,
            num_tables,
            search_range,
            entry_selector,
            range_shift,
        },
    )
}

/// Reads one table record from the stream: the tag, then the checksum,
/// the offset and the length.
pub fn read_snft_table_entry(data: &mut FontDataStream) -> (res: Result<SnftTableEntry, Error>)
    ensures
        res == parsed_entry(old(data)@),
        final(data)@ == after_entry(old(data)@),
{
    let ghost start: StreamView = data@;
    let tag_bytes: &[u8] = match data.read_bytes(4) {
        Ok(bytes) => bytes,
        Err(e) => {
            return Err(e);
        },
    };
    let tag: [u8; 4] = [tag_bytes[0], tag_bytes[1], tag_bytes[2], tag_bytes[3]];
    let checksum: u32 = match data.read_u32() {
        Ok(v) => v,
        Err(e) => {
            return Err(e);
        },
    };
    let offset: u32 = match data.read_u32() {
        Ok(v) => v,
        Err(e) => {
            return Err(e);
        },
    };
    let length: u32 = match data.read_u32() {
        Ok(v) => v,
        Err(e) => {
            return Err(e);
        },
    };

    Ok(SnftTableEntry { tag, checksum, offset, length })
}

/// Whether the byte at `at` of the file lies in the table that `entry`
/// records.
pub open spec fn covers(entry: SnftTableEntry, at: int) -> bool {
    entry.offset <= at < entry.offset + entry.length
}

/// Whether the byte at `at` of the file enters the checksum of the table
/// that `entry` records: it lies in the table, and is no byte of the
/// checksum adjustment of `head`.
pub open spec fn counts(entry: SnftTableEntry, at: int) -> bool {
    covers(entry, at) && is_summed(entry.tag, at - entry.offset)
}

/// A directory that is read with success has as many records as its
/// header declares, and the tags listed as text are as many, in file
/// order: the text at place `i` is made of the first four bytes of the
/// record at place `i` of the file, whether or not another record has
/// the same tag.
pub proof fn lemma_tags_follow_file_order(stream: StreamView)
    requires
        parsed_directory(stream) is Ok,
    ensures
        ({
            let directory: DirectoryView = parsed_directory(stream)->Ok_0;
            let tags: Seq<Seq<char>> = tag_texts(directory.tables);
            &&& directory.tables.len() == directory.header.num_tables
            &&& tags.len() == directory.header.num_tables
            &&& forall|i: int|
                0 <= i < tags.len() ==> #[trigger] tags[i] == lossy_utf8(
                    stream.data.subrange(
                        stream.position + 12 + 16 * i,
                        stream.position + 12 + 16 * i + 4,
                    ),
                )
        }),
{
    let directory: DirectoryView = parsed_directory(stream)->Ok_0;
    let tags: Seq<Seq<char>> = tag_texts(directory.tables);
    assert forall|i: int| 0 <= i < tags.len() implies #[trigger] tags[i] == lossy_utf8(
        stream.data.subrange(stream.position + 12 + 16 * i, stream.position + 12 + 16 * i + 4),
    ) by {
        let at: int = stream.position + 12 + 16 * i;
        assert(directory.tables[i].tag@ =~= stream.data.subrange(at, at + 4));
    }
}

/// A directory whose header declares more records than the buffer holds
/// is not read in part: reading fails, inside the first record that is
/// not wholly there, with the error of a 4-byte read that finds exactly
/// the bytes left at the place where the stream then stands.
pub proof fn lemma_truncated_directory_fails(stream: StreamView)
    requires
        stream.well_formed(),
        parsed_header(stream) is Ok,
        stream.remaining() - 12 < 16 * parsed_header(stream)->Ok_0.num_tables,
    ensures
        ({
            let left: int = stream.remaining() - 12;
            let stop: StreamView = after_directory(stream);
            let record: int = left / 16;
            &&& parsed_directory(stream) == Err::<DirectoryView, Error>(
                out_of_bounds(4, stop.remaining()),
            )
            &&& stop.remaining() < 4
            &&& 0 <= record < parsed_header(stream)->Ok_0.num_tables
            &&& stream.position + 12 + 16 * record <= stop.position < stream.position + 12 + 16 * (
            record + 1)
        }),
{
}

/// A change of a single byte of the file is detected.
///
/// Let a file pass validation, and let one of its bytes take another
/// value. Then validation fails with a checksum mismatch for the first
/// record in directory order whose checksum that byte enters, and the
/// error carries that record's tag and offset. The checksum of every
/// table that the byte does not enter stays what it was.
pub proof fn lemma_changed_byte_is_detected(
    tables: Seq<SnftTableEntry>,
    data: Seq<u8>,
    at: int,
    value: u8,
    index: int,
)
    requires
        validation(tables, data) is Ok,
        0 <= at < data.len(),
        value != data[at],
        0 <= index < tables.len(),
        counts(tables[index], at),
        forall|j: int| 0 <= j < index ==> !counts(#[trigger] tables[j], at),
    ensures
        validation(tables, data.update(at, value)) == Err::<(), Error>(
            mismatch_error(tables[index], data.update(at, value)),
        ),
        mismatch_error(tables[index], data.update(at, value)) matches Error::Io(
            IoError::ChecksumMismatch { table, offset, expected, found },
        ) && table == tables[index].tag && offset == tables[index].offset && expected
            == tables[index].checksum && found != expected,
        forall|j: int|
            0 <= j < tables.len() && !counts(#[trigger] tables[j], at) ==> table_checksum(
                tables[j].tag,
                table_bytes(tables[j], data.update(at, value)),
            ) == table_checksum(tables[j].tag, table_bytes(tables[j], data)),
{
    let changed: Seq<u8> = data.update(at, value);
    let count: int = tables.len() as int;
    let unreachable = |i: int| out_of_range(tables[i], data);
    let unequal = |i: int| !sums_up(tables[i], data);
    let unreachable_then = |i: int| out_of_range(tables[i], changed);
    let unequal_then = |i: int| !sums_up(tables[i], changed);
    lemma_first_where(count, unreachable);
    lemma_first_where(count, unequal);

    assert forall|j: int| 0 <= j < count implies !#[trigger] unreachable_then(j) by {
        assert(!unreachable(j));
    }
    lemma_first_where_is(count, unreachable_then, count);

    assert forall|j: int|
        0 <= j < count && !counts(#[trigger] tables[j], at) implies table_checksum(
        tables[j].tag,
        table_bytes(tables[j], changed),
    ) == table_checksum(tables[j].tag, table_bytes(tables[j], data)) by {
        assert(!unreachable(j));
        if covers(tables[j], at) {
            assert(table_bytes(tables[j], changed) =~= table_bytes(tables[j], data).update(
                at - tables[j].offset,
                value,
            ));
            lemma_head_ignores_adjustment(
                tables[j].tag,
                table_bytes(tables[j], data),
                at - tables[j].offset,
                value,
            );
        } else {
            assert(table_bytes(tables[j], changed) =~= table_bytes(tables[j], data));
        }
    }

    assert(!unreachable(index));
    assert(!unequal(index));
    assert(table_bytes(tables[index], changed) =~= table_bytes(tables[index], data).update(
        at - tables[index].offset,
        value,
    ));
    lemma_table_checksum_detects_change(
        tables[index].tag,
        table_bytes(tables[index], data),
        at - tables[index].offset,
        value,
    );
    assert forall|j: int| 0 <= j < index implies !#[trigger] unequal_then(j) by {
        assert(!unequal(j));
    }
    lemma_first_where_is(count, unequal_then, index);
}

/// A byte that enters no table's checksum plays no part in validation.
///
/// If a byte of the file lies in no table, or only in the checksum
/// adjustment of `head`, the verdict on the file is the same whatever
/// that byte holds. So a `head` table that sums to its checksum with the
/// adjustment taken as zero passes with any adjustment.
pub proof fn lemma_unsummed_byte_is_ignored(
    tables: Seq<SnftTableEntry>,
    data: Seq<u8>,
    at: int,
    value: u8,
)
    requires
        0 <= at < data.len(),
        forall|j: int| 0 <= j < tables.len() ==> !counts(#[trigger] tables[j], at),
    ensures
        validation(tables, data.update(at, value)) == validation(tables, data),
{
    let changed: Seq<u8> = data.update(at, value);
    let count: int = tables.len() as int;
    let unreachable = |i: int| out_of_range(tables[i], data);
    let unequal = |i: int| !sums_up(tables[i], data);
    let unreachable_then = |i: int| out_of_range(tables[i], changed);
    let unequal_then = |i: int| !sums_up(tables[i], changed);
    let first_unreachable: int = first_where(count, unreachable);
    let first_unequal: int = first_where(count, unequal);
    lemma_first_where(count, unreachable);
    lemma_first_where(count, unequal);

    assert forall|j: int| 0 <= j < count implies #[trigger] unreachable_then(j) == unreachable(
        j,
    ) by {}
    lemma_first_where_is(count, unreachable_then, first_unreachable);

    if first_unreachable == count {
        assert forall|j: int| 0 <= j < count implies table_checksum(
            (#[trigger] tables[j]).tag,
            table_bytes(tables[j], changed),
        ) == table_checksum(tables[j].tag, table_bytes(tables[j], data)) by {
            assert(!unreachable(j));
            if covers(tables[j], at) {
                assert(table_bytes(tables[j], changed) =~= table_bytes(tables[j], data).update(
                    at - tables[j].offset,
                    value,
                ));
                lemma_head_ignores_adjustment(
                    tables[j].tag,
                    table_bytes(tables[j], data),
                    at - tables[j].offset,
                    value,
                );
            } else {
                assert(table_bytes(tables[j], changed) =~= table_bytes(tables[j], data));
            }
        }
        assert forall|j: int| 0 <= j < first_unequal implies !#[trigger] unequal_then(j) by {
            assert(!unequal(j));
        }
        if first_unequal < count {
            assert(sums_up(tables[first_unequal], changed) == sums_up(
                tables[first_unequal],
                data,
            ));
        }
        lemma_first_where_is(count, unequal_then, first_unequal);
    }
}

} // verus!

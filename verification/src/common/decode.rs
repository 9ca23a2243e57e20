//! Classification of font data by its signature, and one decoder for each
//! kind of container.
//!
//! The decoders read from a `FontDataStream` and return the table
//! directory of the font. They parse the container only: nothing here
//! interprets glyphs or renders anything.

use vstd::prelude::*;
use crate::common::snft::{after_directory, parsed_directory, read_snft, DirectoryView, SnftTable};
use crate::error::Error;
use crate::io::endian::{pack_u32, ByteOrder};
use crate::io::stream::{out_of_bounds, FontDataStream};

verus! {

/// The kinds of font file that a signature can announce.
#[derive(Debug, Clone, PartialEq, Eq, Hash, Structural)]
pub enum FontFileHeader {
    /// TrueType or OpenType font file with the standard signature.
    SFNT,
    /// 'true' - Apple TrueType font, laid out like the standard kind.
    TRUE,
    /// 'typ1' - Type 1 font. The signature is recognised for the sake of
    /// old files; no decoder for Type 1 fonts exists here.
    TYP1,
    /// 'OTTO' - OpenType font with CFF outlines, laid out like the
    /// standard kind.
    OTTO,
    /// 'wOFF' - Web Open Font Format.
    WOFF,
    /// 'wOF2' - Web Open Font Format 2.
    WOF2,
    /// 'svg ' - SVG font, an XML document.
    SVG,
    /// Any other signature.
    Unknown,
}

/// The kind of font file that the 32-bit signature `value` announces.
pub open spec fn signature_kind(value: u32) -> FontFileHeader {
    if value == 0x0001_0000 {
        FontFileHeader::SFNT
    } else if value == 0x7472_7565 {
        FontFileHeader::TRUE
    } else if value == 0x7479_7031 {
        FontFileHeader::TYP1
    } else if value == 0x4F54_544F {
        FontFileHeader::OTTO
    } else if value == 0x774F_4646 {
        FontFileHeader::WOFF
    } else if value == 0x774F_4632 {
        FontFileHeader::WOF2
    } else if value == 0x7376_6720 {
        FontFileHeader::SVG
    } else {
        FontFileHeader::Unknown
    }
}

impl From<u32> for FontFileHeader {
    fn from(value: u32) -> (kind: FontFileHeader) {
        match value {
            0x0001_0000 => FontFileHeader::SFNT,
            0x7472_7565 => FontFileHeader::TRUE,
            0x7479_7031 => FontFileHeader::TYP1,
            0x4F54_544F => FontFileHeader::OTTO,
            0x774F_4646 => FontFileHeader::WOFF,
            0x774F_4632 => FontFileHeader::WOF2,
            0x7376_6720 => FontFileHeader::SVG,
            _ => FontFileHeader::Unknown,
        }
    }
}

impl vstd::std_specs::convert::FromSpecImpl<u32> for FontFileHeader {
    open spec fn obeys_from_spec() -> bool {
        true
    }

    open spec fn from_spec(value: u32) -> FontFileHeader {
        signature_kind(value)
    }
}

/// The kind of font file that `data` is by its first four bytes, read as
/// one big-endian number; data of fewer than four bytes has no kind, and
/// the attempt to read four is out of bounds.
pub open spec fn classification(data: Seq<u8>) -> Result<FontFileHeader, Error> {
    if data.len() >= 4 {
        Ok(signature_kind(pack_u32(data[0], data[1], data[2], data[3])))
    } else {
        Err(out_of_bounds(4, data.len()))
    }
}

/// Classifies the font data of `stream` by its signature.
///
/// The signature is read at the start of the buffer, wherever the stream
/// is positioned, and the stream is left as it was, so that parsing can
/// go on from where it stood. A signature that is not known is no error:
/// it is classified as `Unknown`.
#[inline]
pub fn decode_font_type(stream: &mut FontDataStream) -> (res: Result<FontFileHeader, Error>)
    ensures
        res == classification(old(stream)@.data),
        final(stream)@ == old(stream)@,
{
    let bytes: &[u8] = match stream.slice_range(0..4) {
        Ok(bytes) => bytes,
        Err(e) => {
            return Err(e);
        },
    };
    let signature: u32 = ByteOrder::BigEndian.u32_from([bytes[0], bytes[1], bytes[2], bytes[3]]);
    Ok(FontFileHeader::from(signature))
}

/// Decodes an OpenType font: reads its table directory from the stream.
#[inline]
pub fn decode_font_otf(stream: &mut FontDataStream) -> (res: Result<SnftTable, Error>)
    ensures
        (match res {
            Ok(table) => parsed_directory(old(stream)@) == Ok::<DirectoryView, Error>(table@),
            Err(e) => parsed_directory(old(stream)@) == Err::<DirectoryView, Error>(e),
        }),
        final(stream)@ == after_directory(old(stream)@),
{
    read_snft(stream)
}

/// Decodes a TrueType font: reads its table directory from the stream.
#[inline]
pub fn decode_font_ttf(stream: &mut FontDataStream) -> (res: Result<SnftTable, Error>)
    ensures
        (match res {
            Ok(table) => parsed_directory(old(stream)@) == Ok::<DirectoryView, Error>(table@),
            Err(e) => parsed_directory(old(stream)@) == Err::<DirectoryView, Error>(e),
        }),
        final(stream)@ == after_directory(old(stream)@),
{
    read_snft(stream)
}

/// WOFF fonts have no decoder yet: the result is always the
/// invalid-format error, and the stream is not read.
#[inline]
pub fn decode_font_woff(_stream: &mut FontDataStream) -> (res: Result<SnftTable, Error>)
    ensures
        res matches Err(e) && e == Error::InvalidFormat,
        final(_stream)@ == old(_stream)@,
{
    Err(Error::InvalidFormat)
}

/// WOFF2 fonts have no decoder yet: the result is always the
/// invalid-format error, and the stream is not read.
#[inline]
pub fn decode_font_woff2(_stream: &mut FontDataStream) -> (res: Result<SnftTable, Error>)
    ensures
        res matches Err(e) && e == Error::InvalidFormat,
        final(_stream)@ == old(_stream)@,
{
    Err(Error::InvalidFormat)
}

/// SVG fonts have no decoder yet: the result is always the
/// invalid-format error, and the stream is not read.
#[inline]
pub fn decode_font_svg(_stream: &mut FontDataStream) -> (res: Result<SnftTable, Error>)
    ensures
        res matches Err(e) && e == Error::InvalidFormat,
        final(_stream)@ == old(_stream)@,
{
    Err(Error::InvalidFormat)
}

/// Data of fewer than four bytes is never classified as a kind of font
/// file: classification fails with the out-of-bounds error of a 4-byte
/// read, which reports how many bytes there are.
pub proof fn lemma_short_data_has_no_kind(data: Seq<u8>)
    requires
        data.len() < 4,
    ensures
        classification(data) == Err::<FontFileHeader, Error>(out_of_bounds(4, data.len())),
{
}

/// The first four bytes decide the kind, whatever follows them: `00 01
/// 00 00` is the standard kind, `4F 54 54 4F` the CFF-flavoured one, and
/// `FF FF FF FF` is unknown.
pub proof fn lemma_signatures_classify(data: Seq<u8>)
    requires
        data.len() >= 4,
    ensures
        data.subrange(0, 4) =~= seq![0x00u8, 0x01u8, 0x00u8, 0x00u8] ==> classification(data)
            == Ok::<FontFileHeader, Error>(FontFileHeader::SFNT),
        data.subrange(0, 4) =~= seq![0x4Fu8, 0x54u8, 0x54u8, 0x4Fu8] ==> classification(data)
            == Ok::<FontFileHeader, Error>(FontFileHeader::OTTO),
        data.subrange(0, 4) =~= seq![0xFFu8, 0xFFu8, 0xFFu8, 0xFFu8] ==> classification(data)
            == Ok::<FontFileHeader, Error>(FontFileHeader::Unknown),
{
    let head: Seq<u8> = data.subrange(0, 4);
}

} // verus!

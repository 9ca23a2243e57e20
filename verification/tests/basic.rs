//! Basic tests for the Aurora Font Library.

use aurora_font::common::snft::{read_snft, validate_snft_tables};
use aurora_font::common::{decode_font_type, FontFileHeader};
use aurora_font::error::{Error, IoError};
use aurora_font::io::{ByteOrder, FontDataStream};
use aurora_font::optional::builtin::Font;
use aurora_font::optional::decode_into;

/// The table checksum, computed the plain way: big-endian words of four
/// bytes, summed with wraparound. A short last chunk fills the low-order
/// end of its word, and the high-order bytes that are missing are zero.
fn word_sum(data: &[u8]) -> u32 {
    let mut sum: u32 = 0;
    for chunk in data.chunks(4) {
        let mut word = [0u8; 4];
        word[4 - chunk.len()..].copy_from_slice(chunk);
        sum = sum.wrapping_add(u32::from_be_bytes(word));
    }
    sum
}

/// Lays out a font file: the header, one record for each table, then the
/// tables themselves, each padded to a multiple of four bytes. The
/// checksum of `head` is taken with its adjustment field zeroed.
fn build_font(signature: [u8; 4], tables: &[([u8; 4], Vec<u8>)]) -> Vec<u8> {
    let mut font: Vec<u8> = Vec::new();
    font.extend_from_slice(&signature);
    font.extend_from_slice(&(tables.len() as u16).to_be_bytes());
    font.extend_from_slice(&[0x00, 0x40, 0x00, 0x02, 0x00, 0x10]);
    let mut offset: usize = 12 + 16 * tables.len();
    for (tag, data) in tables {
        let mut summed = data.clone();
        if tag == b"head" {
            for byte in summed.iter_mut().skip(8).take(4) {
                *byte = 0;
            }
        }
        font.extend_from_slice(tag);
        font.extend_from_slice(&word_sum(&summed).to_be_bytes());
        font.extend_from_slice(&(offset as u32).to_be_bytes());
        font.extend_from_slice(&(data.len() as u32).to_be_bytes());
        offset += (data.len() + 3) / 4 * 4;
    }
    for (_, data) in tables {
        font.extend_from_slice(data);
        while font.len() % 4 != 0 {
            font.push(0);
        }
    }
    font
}

/// An OpenType font with CFF outlines, as small as a font file gets while
/// still having the tables that matter here.
fn open_type_font() -> Vec<u8> {
    let mut head: Vec<u8> = vec![0x00, 0x01, 0x00, 0x00, 0x00, 0x01, 0x80, 0x00];
    head.extend_from_slice(&[0xB1, 0xB0, 0xAF, 0xBA]);
    head.extend_from_slice(&[0x5F, 0x0F, 0x3C, 0xF5, 0x00, 0x0B, 0x03, 0xE8]);
    build_font(
        *b"OTTO",
        &[
            (*b"CFF ", vec![0x01, 0x00, 0x04, 0x01, 0x00, 0x01, 0x01, 0x01, 0x0A]),
            (*b"OS/2", vec![0x00, 0x03, 0x02, 0x58, 0x01, 0x90]),
            (*b"cmap", vec![0x00, 0x00, 0x00, 0x01, 0x00, 0x03, 0x00, 0x01, 0x00, 0x00, 0x00]),
            (*b"head", head),
            (*b"maxp", vec![0x00, 0x00, 0x50, 0x00, 0x00, 0x5F]),
            (*b"name", vec![0xFF, 0xFE, 0xFD, 0xFC, 0xFB, 0xFA, 0xF9, 0xF8, 0xF7]),
        ],
    )
}

#[test]
fn test_endianness_detection() {
    let data_be: [u8; 4] = [0x77, 0x1B, 0xA2, 0x4F];
    let data_le: [u8; 4] = [0x4F, 0xA2, 0x1B, 0x77];

    assert_eq!(ByteOrder::detect_from_u32_data(&data_be), Some(ByteOrder::BigEndian));
    assert_eq!(ByteOrder::detect_from_u32_data(&data_le), Some(ByteOrder::LittleEndian));

    let bom_be: [u8; 2] = [0xFE, 0xFF];
    let bom_le: [u8; 2] = [0xFF, 0xFE];
    assert_eq!(ByteOrder::detect_from_bom(&bom_be), Some(ByteOrder::BigEndian));
    assert_eq!(ByteOrder::detect_from_bom(&bom_le), Some(ByteOrder::LittleEndian));

    let num_be = ByteOrder::BigEndian.u32_from([0x00, 0x00, 0x01, 0x00]);
    let num_le = ByteOrder::LittleEndian.u32_from([0x00, 0x00, 0x01, 0x00]);
    assert_eq!(num_be, 256);
    assert_eq!(num_le, 65536);

    let slice_be: [u8; 4] = [0x00, 0x00, 0x01, 0x00];
    let slice_le: [u8; 4] = [0x00, 0x00, 0x01, 0x00];
    assert_eq!(ByteOrder::BigEndian.read_u32_from_slice(&slice_be), Some(256));
    assert_eq!(ByteOrder::LittleEndian.read_u32_from_slice(&slice_le), Some(65536));
}

#[test]
fn test_io_stream() {
    let data: Vec<u8> = vec![0x00, 0x01, 0x02, 0x03, 0x04];
    let mut stream = FontDataStream::new(&data);
    assert_eq!(stream.position(), 0);
    assert_eq!(stream.read_bytes(2).unwrap(), &[0x00, 0x01]);
    assert_eq!(stream.position(), 2);

    stream.seek(1);
    assert_eq!(stream.position(), 1);
    assert_eq!(stream.read_bytes(3).unwrap(), &[0x01, 0x02, 0x03]);
    assert_eq!(stream.position(), 4);

    let result = stream.read_bytes(2);
    assert!(matches!(
        result,
        Err(Error::Io(IoError::OutOfBounds { requested: 2, available: 1 }))
    ));
}

#[test]
fn test_decode_font_type() {
    let sfnt_data: Vec<u8> = vec![0x00, 0x01, 0x00, 0x00]; // SFNT signature
    let mut sfnt_stream = FontDataStream::new(&sfnt_data);
    let header = decode_font_type(&mut sfnt_stream).unwrap();
    assert_eq!(header, FontFileHeader::SFNT);

    let otto_data: Vec<u8> = vec![0x4F, 0x54, 0x54, 0x4F]; // 'OTTO' signature
    let mut otto_stream = FontDataStream::new(&otto_data);
    let header = decode_font_type(&mut otto_stream).unwrap();
    assert_eq!(header, FontFileHeader::OTTO);

    let invalid_data: Vec<u8> = vec![0xFF, 0xFF, 0xFF, 0xFF]; // Invalid signature
    let mut invalid_stream = FontDataStream::new(&invalid_data);
    let header = decode_font_type(&mut invalid_stream).unwrap();
    assert_eq!(header, FontFileHeader::Unknown);
}

#[test]
fn test_snft_checksum_validation() {
    let font: Vec<u8> = open_type_font();
    let mut stream = FontDataStream::new(&font);
    let table = read_snft(&mut stream).expect("Unable to parse snft");
    let result = validate_snft_tables(table.tables, &mut stream);

    assert!(matches!(result, Ok(())), "SNFT checksum validation failed: {:?}", result.err());
}

#[test]
fn test_decode_into() {
    let font: Vec<u8> = open_type_font();

    let mut sfnt_stream = FontDataStream::new(&font);
    let sink = Font::new();
    let result = decode_into(&mut sfnt_stream, sink);
    assert!(result.is_ok(), "Decoding into Font sink failed: {:?}", result.err());
}

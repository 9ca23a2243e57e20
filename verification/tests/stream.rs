//! The byte stream: sequential reads, peeks, absolute reads and slices.

use aurora_font::error::{Error, IoError};
use aurora_font::io::stream::{SeekFault, SeekTarget};
use aurora_font::io::{ByteOrder, FontDataStream};

fn out_of_bounds<T>(requested: usize, available: usize) -> Result<T, Error> {
    Err(Error::Io(IoError::OutOfBounds { requested, available }))
}

#[test]
fn new_stream_starts_at_zero_in_big_endian() {
    let data: [u8; 3] = [0x12, 0x34, 0x56];
    let mut stream = FontDataStream::new(&data);
    assert_eq!(stream.position(), 0);
    assert_eq!(stream.tell(), 0);
    assert_eq!(stream.len(), 3);
    assert!(!stream.is_empty());
    assert!(!stream.is_eof());
    assert_eq!(stream.read_u16(), Ok(0x1234));
}

#[test]
fn empty_stream_is_empty_and_at_its_end() {
    let data: [u8; 0] = [];
    let mut stream = FontDataStream::new(&data);
    assert!(stream.is_empty());
    assert!(stream.is_eof());
    assert_eq!(stream.len(), 0);
    assert_eq!(stream.remaining_bytes(), &[] as &[u8]);
    assert_eq!(stream.read_u8(), out_of_bounds(1, 0));
    assert_eq!(stream.peek_u8(), out_of_bounds(1, 0));
    assert_eq!(stream.read_bytes(0), Ok(&[] as &[u8]));
}

#[test]
fn read_u8_advances_by_one_and_fails_at_the_end() {
    let data: [u8; 2] = [0xAB, 0xCD];
    let mut stream = FontDataStream::new(&data);
    assert_eq!(stream.read_u8(), Ok(0xAB));
    assert_eq!(stream.position(), 1);
    assert_eq!(stream.read_u8(), Ok(0xCD));
    assert_eq!(stream.position(), 2);
    assert!(stream.is_eof());
    assert_eq!(stream.read_u8(), out_of_bounds(1, 0));
    assert_eq!(stream.position(), 2);
}

#[test]
fn read_u16_follows_the_byte_order() {
    let data: [u8; 5] = [0x12, 0x34, 0x56, 0x78, 0x9A];
    let mut big = FontDataStream::new(&data);
    assert_eq!(big.read_u16(), Ok(0x1234));
    assert_eq!(big.read_u16(), Ok(0x5678));
    assert_eq!(big.position(), 4);
    assert_eq!(big.read_u16(), out_of_bounds(2, 1));
    assert_eq!(big.position(), 4);

    let mut little = FontDataStream::new(&data).with_endianness(ByteOrder::LittleEndian);
    assert_eq!(little.read_u16(), Ok(0x3412));
    assert_eq!(little.read_u16(), Ok(0x7856));
}

#[test]
fn read_u32_follows_the_byte_order() {
    let data: [u8; 7] = [0x12, 0x34, 0x56, 0x78, 0x9A, 0xBC, 0xDE];
    let mut big = FontDataStream::new(&data);
    assert_eq!(big.read_u32(), Ok(0x1234_5678));
    assert_eq!(big.position(), 4);
    assert_eq!(big.read_u32(), out_of_bounds(4, 3));
    assert_eq!(big.position(), 4);

    let mut little = FontDataStream::new(&data).with_endianness(ByteOrder::LittleEndian);
    assert_eq!(little.read_u32(), Ok(0x7856_3412));
    assert_eq!(little.position(), 4);
}

#[test]
fn with_endianness_keeps_the_position() {
    let data: [u8; 4] = [0x01, 0x02, 0x03, 0x04];
    let mut stream = FontDataStream::new(&data);
    stream.seek(2);
    let mut stream = stream.with_endianness(ByteOrder::LittleEndian);
    assert_eq!(stream.position(), 2);
    assert_eq!(stream.read_u16(), Ok(0x0403));
}

#[test]
fn signed_reads_reinterpret_the_bits() {
    let data: [u8; 14] = [
        0xFF, 0x7F, 0x80, 0xFF, 0xFE, 0x7F, 0xFF, 0x80, 0x00, 0x00, 0x00, 0xFF, 0xFF, 0xFF,
    ];
    let mut stream = FontDataStream::new(&data);
    assert_eq!(stream.read_i8(), Ok(-1));
    assert_eq!(stream.read_i8(), Ok(127));
    assert_eq!(stream.read_i8(), Ok(-128));
    assert_eq!(stream.read_i16(), Ok(-2));
    assert_eq!(stream.read_i16(), Ok(32767));
    assert_eq!(stream.read_i32(), Ok(i32::MIN));
    assert_eq!(stream.position(), 11);
    assert_eq!(stream.read_i32(), out_of_bounds(4, 3));
    assert_eq!(stream.read_i16(), Ok(-1));
    assert_eq!(stream.read_i16(), out_of_bounds(2, 1));
    assert_eq!(stream.read_i8(), Ok(-1));
    assert_eq!(stream.read_i8(), out_of_bounds(1, 0));
}

#[test]
fn signed_reads_follow_the_byte_order() {
    let data: [u8; 6] = [0x00, 0x80, 0x01, 0x00, 0x00, 0x80];
    let mut stream = FontDataStream::new(&data).with_endianness(ByteOrder::LittleEndian);
    assert_eq!(stream.read_i16(), Ok(i16::MIN));
    assert_eq!(stream.read_i32(), Ok(-2147483647));
}

#[test]
fn skip_saturates_at_the_end() {
    let data: [u8; 5] = [0, 1, 2, 3, 4];
    let mut stream = FontDataStream::new(&data);
    stream.skip(2);
    assert_eq!(stream.position(), 2);
    stream.skip(0);
    assert_eq!(stream.position(), 2);
    stream.skip(3);
    assert_eq!(stream.position(), 5);
    stream.reset();
    stream.skip(1);
    stream.skip(usize::MAX);
    assert_eq!(stream.position(), 5);
    assert!(stream.is_eof());
}

#[test]
fn seek_clamps_to_the_length() {
    let data: [u8; 5] = [0, 1, 2, 3, 4];
    let mut stream = FontDataStream::new(&data);
    stream.seek(5);
    assert_eq!(stream.position(), 5);
    stream.seek(3);
    assert_eq!(stream.position(), 3);
    stream.seek(6);
    assert_eq!(stream.position(), 5);
    stream.seek(usize::MAX);
    assert_eq!(stream.position(), 5);
    stream.reset();
    assert_eq!(stream.position(), 0);
}

#[test]
fn remaining_bytes_are_those_from_the_position_on() {
    let data: [u8; 5] = [0, 1, 2, 3, 4];
    let mut stream = FontDataStream::new(&data);
    assert_eq!(stream.remaining_bytes(), &[0, 1, 2, 3, 4]);
    stream.seek(3);
    assert_eq!(stream.remaining_bytes(), &[3, 4]);
    stream.seek(5);
    assert_eq!(stream.remaining_bytes(), &[] as &[u8]);
}

#[test]
fn read_bytes_of_everything_and_of_too_much() {
    let data: [u8; 4] = [9, 8, 7, 6];
    let mut stream = FontDataStream::new(&data);
    assert_eq!(stream.read_bytes(5), out_of_bounds(5, 4));
    assert_eq!(stream.position(), 0);
    assert_eq!(stream.read_bytes(usize::MAX), out_of_bounds(usize::MAX, 4));
    assert_eq!(stream.read_bytes(4), Ok(&[9u8, 8, 7, 6][..]));
    assert_eq!(stream.position(), 4);
    assert_eq!(stream.read_bytes(0), Ok(&[] as &[u8]));
    assert_eq!(stream.read_bytes(1), out_of_bounds(1, 0));
}

#[test]
fn peeks_do_not_advance() {
    let data: [u8; 4] = [9, 8, 7, 6];
    let mut stream = FontDataStream::new(&data);
    stream.seek(1);
    assert_eq!(stream.peek_u8(), Ok(8));
    assert_eq!(stream.peek_bytes(3), Ok(&[8u8, 7, 6][..]));
    assert_eq!(stream.peek_bytes(0), Ok(&[] as &[u8]));
    assert_eq!(stream.peek_bytes(4), out_of_bounds(4, 3));
    assert_eq!(stream.peek_bytes(usize::MAX), out_of_bounds(usize::MAX, 3));
    assert_eq!(stream.position(), 1);
    stream.seek(4);
    assert_eq!(stream.peek_u8(), out_of_bounds(1, 0));
    assert_eq!(stream.peek_bytes(1), out_of_bounds(1, 0));
    assert_eq!(stream.position(), 4);
}

#[test]
fn absolute_reads_ignore_the_position() {
    let data: [u8; 6] = [0x10, 0x20, 0x30, 0x40, 0x50, 0x60];
    let mut stream = FontDataStream::new(&data);
    stream.seek(5);
    assert_eq!(stream.read_at_u8(0), Ok(0x10));
    assert_eq!(stream.read_at_u8(5), Ok(0x60));
    assert_eq!(stream.read_at_u8(6), out_of_bounds(1, 0));
    assert_eq!(stream.read_at_u8(usize::MAX), out_of_bounds(1, 0));
    assert_eq!(stream.read_at_u16(1), Ok(0x2030));
    assert_eq!(stream.read_at_u16(4), Ok(0x5060));
    assert_eq!(stream.read_at_u16(5), out_of_bounds(2, 1));
    assert_eq!(stream.read_at_u16(6), out_of_bounds(2, 0));
    assert_eq!(stream.read_at_u16(usize::MAX), out_of_bounds(2, 0));
    assert_eq!(stream.read_at_u32(2), Ok(0x3040_5060));
    assert_eq!(stream.read_at_u32(3), out_of_bounds(4, 3));
    assert_eq!(stream.read_at_u32(7), out_of_bounds(4, 0));
    assert_eq!(stream.read_at_u32(usize::MAX - 1), out_of_bounds(4, 0));
    assert_eq!(stream.position(), 5);
}

#[test]
fn absolute_reads_follow_the_byte_order() {
    let data: [u8; 6] = [0x10, 0x20, 0x30, 0x40, 0x50, 0x60];
    let stream = FontDataStream::new(&data).with_endianness(ByteOrder::LittleEndian);
    assert_eq!(stream.read_at_u16(1), Ok(0x3020));
    assert_eq!(stream.read_at_u32(2), Ok(0x6050_4030));
}

#[test]
fn slice_at_checks_offset_and_length() {
    let data: [u8; 5] = [0, 1, 2, 3, 4];
    let mut stream = FontDataStream::new(&data);
    stream.seek(4);
    assert_eq!(stream.slice_at(1, 3), Ok(&[1u8, 2, 3][..]));
    assert_eq!(stream.slice_at(0, 5), Ok(&[0u8, 1, 2, 3, 4][..]));
    assert_eq!(stream.slice_at(5, 0), Ok(&[] as &[u8]));
    assert_eq!(stream.slice_at(2, 4), out_of_bounds(4, 3));
    assert_eq!(stream.slice_at(5, 1), out_of_bounds(1, 0));
    assert_eq!(stream.slice_at(6, 0), out_of_bounds(0, 0));
    assert_eq!(stream.slice_at(9, 2), out_of_bounds(2, 0));
    assert_eq!(stream.slice_at(usize::MAX, 2), out_of_bounds(2, 0));
    assert_eq!(stream.slice_at(2, usize::MAX), out_of_bounds(usize::MAX, 3));
    assert_eq!(stream.position(), 4);
}

#[test]
fn slice_range_of_an_empty_range_is_empty() {
    let data: [u8; 5] = [0, 1, 2, 3, 4];
    let stream = FontDataStream::new(&data);
    assert_eq!(stream.slice_range(0..0), Ok(&[] as &[u8]));
    assert_eq!(stream.slice_range(3..3), Ok(&[] as &[u8]));
    assert_eq!(stream.slice_range(5..5), Ok(&[] as &[u8]));
}

#[test]
fn slice_range_with_start_beyond_end_is_an_invalid_offset() {
    let data: [u8; 5] = [0, 1, 2, 3, 4];
    let stream = FontDataStream::new(&data);
    let reversed = std::ops::Range { start: 3, end: 2 };
    assert_eq!(stream.slice_range(reversed), Err(Error::Io(IoError::InvalidOffset { offset: 3 })));
    let beyond = std::ops::Range { start: 9, end: 7 };
    assert_eq!(stream.slice_range(beyond), Err(Error::Io(IoError::InvalidOffset { offset: 9 })));
    let wide = std::ops::Range { start: usize::MAX, end: 0 };
    assert_eq!(
        stream.slice_range(wide),
        Err(Error::Io(IoError::InvalidOffset { offset: usize::MAX }))
    );
}

#[test]
fn slice_range_past_the_end_is_out_of_bounds() {
    let data: [u8; 5] = [0, 1, 2, 3, 4];
    let mut stream = FontDataStream::new(&data);
    stream.seek(2);
    assert_eq!(stream.slice_range(1..4), Ok(&[1u8, 2, 3][..]));
    assert_eq!(stream.slice_range(0..5), Ok(&[0u8, 1, 2, 3, 4][..]));
    assert_eq!(stream.slice_range(2..6), out_of_bounds(4, 3));
    assert_eq!(stream.slice_range(5..6), out_of_bounds(1, 0));
    assert_eq!(stream.slice_range(7..9), out_of_bounds(2, 0));
    assert_eq!(stream.slice_range(6..6), out_of_bounds(0, 0));
    assert_eq!(stream.slice_range(0..usize::MAX), out_of_bounds(usize::MAX, 5));
    assert_eq!(stream.position(), 2);
}

#[test]
fn read_tag_takes_four_bytes() {
    let data: [u8; 6] = [b'h', b'e', b'a', b'd', 1, 2];
    let mut stream = FontDataStream::new(&data);
    assert_eq!(stream.read_tag(), Ok(*b"head"));
    assert_eq!(stream.position(), 4);
    assert_eq!(stream.read_tag(), out_of_bounds(4, 2));
    assert_eq!(stream.position(), 4);
}

#[test]
fn read_chunk_takes_what_is_there() {
    let data: [u8; 5] = [0, 1, 2, 3, 4];
    let mut stream = FontDataStream::new(&data);
    assert_eq!(stream.read_chunk(2), &[0, 1]);
    assert_eq!(stream.position(), 2);
    assert_eq!(stream.read_chunk(0), &[] as &[u8]);
    assert_eq!(stream.read_chunk(10), &[2, 3, 4]);
    assert_eq!(stream.position(), 5);
    assert_eq!(stream.read_chunk(10), &[] as &[u8]);
    assert_eq!(stream.position(), 5);
}

#[test]
fn seek_to_from_each_origin() {
    let data: [u8; 5] = [0, 1, 2, 3, 4];
    let mut stream = FontDataStream::new(&data);
    assert_eq!(stream.seek_to(SeekTarget::Start(3)), Ok(3));
    assert_eq!(stream.position(), 3);
    assert_eq!(stream.seek_to(SeekTarget::Current(-2)), Ok(1));
    assert_eq!(stream.seek_to(SeekTarget::Current(1)), Ok(2));
    assert_eq!(stream.seek_to(SeekTarget::End(-1)), Ok(4));
    assert_eq!(stream.seek_to(SeekTarget::End(0)), Ok(5));
    assert_eq!(stream.seek_to(SeekTarget::End(-5)), Ok(0));
    assert_eq!(stream.position(), 0);
}

#[test]
fn seek_to_clamps_beyond_the_end() {
    let data: [u8; 5] = [0, 1, 2, 3, 4];
    let mut stream = FontDataStream::new(&data);
    assert_eq!(stream.seek_to(SeekTarget::Start(6)), Ok(5));
    assert_eq!(stream.seek_to(SeekTarget::Start(i64::MAX as u64)), Ok(5));
    assert_eq!(stream.seek_to(SeekTarget::Start(2)), Ok(2));
    assert_eq!(stream.seek_to(SeekTarget::Current(i64::MAX)), Ok(5));
    assert_eq!(stream.seek_to(SeekTarget::End(i64::MAX)), Ok(5));
    assert_eq!(stream.seek_to(SeekTarget::End(7)), Ok(5));
}

#[test]
fn seek_to_refuses_places_before_the_start() {
    let data: [u8; 5] = [0, 1, 2, 3, 4];
    let mut stream = FontDataStream::new(&data);
    stream.seek(2);
    assert_eq!(stream.seek_to(SeekTarget::Current(-3)), Err(SeekFault::BeforeStart));
    assert_eq!(stream.position(), 2);
    assert_eq!(stream.seek_to(SeekTarget::End(-6)), Err(SeekFault::BeforeStart));
    assert_eq!(stream.seek_to(SeekTarget::End(i64::MIN)), Err(SeekFault::BeforeStart));
    assert_eq!(stream.seek_to(SeekTarget::Current(i64::MIN)), Err(SeekFault::BeforeStart));
    assert_eq!(stream.position(), 2);
}

#[test]
fn seek_to_refuses_offsets_beyond_the_signed_range() {
    let data: [u8; 5] = [0, 1, 2, 3, 4];
    let mut stream = FontDataStream::new(&data);
    stream.seek(2);
    assert_eq!(
        stream.seek_to(SeekTarget::Start(i64::MAX as u64 + 1)),
        Err(SeekFault::OffsetOutOfRange)
    );
    assert_eq!(stream.seek_to(SeekTarget::Start(u64::MAX)), Err(SeekFault::OffsetOutOfRange));
    assert_eq!(stream.position(), 2);
}

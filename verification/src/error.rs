//! Error types shared by every layer of the library.

use vstd::prelude::*;
use vstd::string::StringExecFns;

verus! {

/// General error type of the library.
#[derive(Debug, Clone, PartialEq, Eq)]
pub enum Error {
    /// A read or a validation failed; the detail is in the `IoError`.
    Io(IoError),
    /// The data is in a format for which no decoder exists.
    InvalidFormat,
}

/// Specific failures raised while reading and validating font data.
#[derive(Debug, Clone, PartialEq, Eq)]
pub enum IoError {
    /// A read asked for `requested` bytes where only `available` remain.
    OutOfBounds { requested: usize, available: usize },
    /// A seek would have moved before the start of the stream.
    SeekBeforeStart,
    /// A range was asked for whose start lies beyond its end.
    InvalidOffset { offset: usize },
    /// A 4-byte tag was invalid or unexpected.
    InvalidTag([u8; 4]),
    /// Version not supported.
    UnsupportedVersion(u32),
    /// A table's bytes do not sum to the checksum its record stores.
    ChecksumMismatch { table: [u8; 4], offset: usize, expected: u32, found: u32 },
    /// A table is shorter than its record declares.
    TruncatedTable { table: [u8; 4], expected_len: usize, found_len: usize },
    /// UTF-8 decoding failed at `offset`.
    InvalidUtf8 { offset: usize },
    /// Glyph index out of range.
    InvalidGlyphIndex { index: u32 },
    /// Data that fits no other category.
    InvalidData,
}

impl From<IoError> for Error {
    fn from(e: IoError) -> (ret: Error) {
        Error::Io(e)
    }
}

impl vstd::std_specs::convert::FromSpecImpl<IoError> for Error {
    open spec fn obeys_from_spec() -> bool {
        true
    }

    open spec fn from_spec(e: IoError) -> Error {
        Error::Io(e)
    }
}

impl From<core::convert::Infallible> for Error {
    fn from(e: core::convert::Infallible) -> (ret: Error) {
        Error::Io(IoError::InvalidData)
    }
}

impl vstd::std_specs::convert::FromSpecImpl<core::convert::Infallible> for Error {
    open spec fn obeys_from_spec() -> bool {
        true
    }

    open spec fn from_spec(e: core::convert::Infallible) -> Error {
        Error::Io(IoError::InvalidData)
    }
}

/// The character that stands for the decimal digit `digit`.
pub open spec fn digit_char(digit: nat) -> char
    recommends
        digit < 10,
{
    (0x30 + digit) as char
}

/// The decimal numeral of `n`, without leading zeros.
pub open spec fn decimal(n: nat) -> Seq<char>
    decreases n,
{
    if n < 10 {
        seq![digit_char(n)]
    } else {
        decimal(n / 10).push(digit_char(n % 10))
    }
}

/// The four bytes of a tag as four characters, each byte taken as the
/// code of its character.
pub open spec fn tag_chars(tag: [u8; 4]) -> Seq<char> {
    seq![tag[0] as char, tag[1] as char, tag[2] as char, tag[3] as char]
}

impl IoError {
    /// The text of the message that describes this error.
    pub open spec fn message_text(self) -> Seq<char> {
        match self {
            IoError::OutOfBounds { requested, available } => "out of bounds read: requested "@
                + decimal(requested as nat) + ", available "@ + decimal(available as nat),
            IoError::SeekBeforeStart => "seek before start"@,
            IoError::InvalidOffset { offset } => "invalid offset: "@ + decimal(offset as nat),
            IoError::InvalidTag(tag) => "invalid tag: "@ + tag_chars(tag),
            IoError::UnsupportedVersion(version) => "unsupported version: "@ + decimal(
                version as nat,
            ),
            IoError::ChecksumMismatch { table, offset, expected, found } =>
                "checksum mismatch for table "@ + tag_chars(table) + " at offset "@ + decimal(
                    offset as nat,
                ) + ": expected "@ + decimal(expected as nat) + ", found "@ + decimal(found as nat),
            IoError::TruncatedTable { table, expected_len, found_len } => "truncated table "@
                + tag_chars(table) + ": expected "@ + decimal(expected_len as nat) + ", found "@
                + decimal(found_len as nat),
            IoError::InvalidUtf8 { offset } => "invalid utf8 at offset "@ + decimal(offset as nat),
            IoError::InvalidGlyphIndex { index } => "invalid glyph index "@ + decimal(
                index as nat,
            ),
            IoError::InvalidData => "invalid data"@,
        }
    }

    /// Describes the error in words, with the numbers and the tag it
    /// carries.
    pub fn message(&self) -> (text: String)
        ensures
            text@ == self.message_text(),
    {
        match self {
            IoError::OutOfBounds { requested, available } => {
                let mut text: String = String::from_str("out of bounds read: requested ");
                push_decimal(&mut text, *requested as u64);
                text.append(", available ");
                push_decimal(&mut text, *available as u64);
                text
            },
            IoError::SeekBeforeStart => String::from_str("seek before start"),
            IoError::InvalidOffset { offset } => {
                let mut text: String = String::from_str("invalid offset: ");
                push_decimal(&mut text, *offset as u64);
                text
            },
            IoError::InvalidTag(tag) => {
                let mut text: String = String::from_str("invalid tag: ");
                push_tag(&mut text, tag);
                text
            },
            IoError::UnsupportedVersion(version) => {
                let mut text: String = String::from_str("unsupported version: ");
                push_decimal(&mut text, *version as u64);
                text
            },
            IoError::ChecksumMismatch { table, offset, expected, found } => {
                let mut text: String = String::from_str("checksum mismatch for table ");
                push_tag(&mut text, table);
                text.append(" at offset ");
                push_decimal(&mut text, *offset as u64);
                text.append(": expected ");
                push_decimal(&mut text, *expected as u64);
                text.append(", found ");
                push_decimal(&mut text, *found as u64);
                text
            },
            IoError::TruncatedTable { table, expected_len, found_len } => {
                let mut text: String = String::from_str("truncated table ");
                push_tag(&mut text, table);
                text.append(": expected ");
                push_decimal(&mut text, *expected_len as u64);
                text.append(", found ");
                push_decimal(&mut text, *found_len as u64);
                text
            },
            IoError::InvalidUtf8 { offset } => {
                let mut text: String = String::from_str("invalid utf8 at offset ");
                push_decimal(&mut text, *offset as u64);
                text
            },
            IoError::InvalidGlyphIndex { index } => {
                let mut text: String = String::from_str("invalid glyph index ");
                push_decimal(&mut text, *index as u64);
                text
            },
            IoError::InvalidData => String::from_str("invalid data"),
        }
    }
}

impl Error {
    /// The text of the message that describes this error.
    pub open spec fn message_text(self) -> Seq<char> {
        match self {
            Error::Io(e) => "I/O error: "@ + e.message_text(),
            Error::InvalidFormat => "invalid format"@,
        }
    }

    /// Describes the error in words.
    pub fn message(&self) -> (text: String)
        ensures
            text@ == self.message_text(),
    {
        match self {
            Error::Io(e) => {
                let detail: String = e.message();
                let mut text: String = String::from_str("I/O error: ");
                text.append(detail.as_str());
                text
            },
            Error::InvalidFormat => String::from_str("invalid format"),
        }
    }
}

/// Calls `String::push`, which appends one character to the end of a
/// string.
#[verifier::external_body]
fn push_char(text: &mut String, c: char)
    ensures
        final(text)@ == old(text)@.push(c),
{
    text.push(c)
}

/// Appends the decimal numeral of `n` to `text`.
fn push_decimal(text: &mut String, n: u64)
    ensures
        final(text)@ == old(text)@ + decimal(n as nat),
    decreases n,
{
    if n >= 10 {
        push_decimal(text, n / 10);
    }
    let digit: u8 = (n % 10) as u8;
    push_char(text, (0x30 + digit) as char);
    proof {
        if n >= 10 {
            assert(old(text)@ + decimal(n as nat) =~= (old(text)@ + decimal((n / 10) as nat)).push(
                digit_char((n % 10) as nat),
            ));
        } else {
        }
    }
}

/// Appends the four bytes of `tag` to `text`, each as the character whose
/// code it is.
fn push_tag(text: &mut String, tag: &[u8; 4])
    ensures
        final(text)@ == old(text)@ + tag_chars(*tag),
{
    push_char(text, tag[0] as char);
    push_char(text, tag[1] as char);
    push_char(text, tag[2] as char);
    push_char(text, tag[3] as char);
}

} // verus!

//! Byte-level access to font data: byte order and the bounds-checked stream.

pub mod endian;
pub mod stream;

pub use endian::ByteOrder;
pub use stream::{FontDataStream, StreamView};

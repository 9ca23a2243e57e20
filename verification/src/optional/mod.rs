//! The consumer side of decoding: the sink that receives a parsed
//! directory, a plain font built on it, and the pipeline that feeds a sink.

pub mod builtin;
pub mod decode;
pub mod sink;

pub use builtin::Font;
pub use decode::{decode, decode_font_file, decode_into};
pub use sink::FontSink;

//! The font container itself: signature classification, the table
//! directory, and the checksums of the tables it lists.

pub mod checksum;
pub mod decode;
pub mod snft;

pub use decode::{
    decode_font_otf, decode_font_svg, decode_font_ttf, decode_font_type, decode_font_woff,
    decode_font_woff2, FontFileHeader,
};
pub use snft::{
    compute_table_checksum, read_snft, read_snft_header, read_snft_table_entry,
    validate_snft_tables, SnftTable, SnftTableEntry, SnftTableHeader, SNFT_TAG,
};

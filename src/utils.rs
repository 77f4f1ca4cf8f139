//! Helpers: number parsing for user input, hex encoding, and the search for
//! the zlib stream.
pub mod hex;
pub mod number;
pub mod zlib_scan;

pub use self::number::parse_offset;
pub use self::zlib_scan::{find_zlib_header, find_zlib_header_offset};

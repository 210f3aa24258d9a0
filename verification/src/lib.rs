//! Decoder for the header region of Windows/OS2 bitmap (BMP) files.
//!
//! A file opens with a fixed 14-byte file header, followed by a DIB header
//! whose leading 32-bit size field selects its variant. Every parser takes
//! the unconsumed bytes and returns the decoded value together with the bytes
//! that follow it; the pixel data is never looked at.

pub mod dib_file;
pub mod dib_header;
pub mod error;
pub mod file_header;
pub mod reader;

pub use dib_file::DIBFile;
pub use dib_header::{BitmapInfoHeader, DIBHeader, DIBHeaderType};
pub use error::ParseError;
pub use file_header::{FileHeader, Signature};

//! A small reader for the Exif block of an image file.
//!
//! The Exif block is a TIFF document: a header that fixes the byte order and
//! points at the first image file directory, and the directory itself, a
//! counted table of 12-byte entries. The functions here locate the block in a
//! buffer and decode that header and that first directory; every contract is
//! stated over the bytes as a `Seq<u8>`.

pub mod bytes;
pub mod endian;
pub mod error;
pub mod ifd;
pub mod registry;
pub mod tiff;

pub use bytes::{find_bytes, take_bytes};
pub use endian::{usizeify, usizeify_n, Endian};
pub use error::ExifError;
pub use ifd::{read_ifd, IFDEntry};
pub use registry::{EntryTag, EntryType};
pub use tiff::{decode_exif, decode_tiff, read_tiff_header, ExifData, TiffHeader};

//! The TIFF section of an Exif block: its header, and the whole way from a
//! file's bytes to the entries of its first directory.

use crate::bytes::{find_bytes, first_occurrence, lemma_first_occurrence_is, occurs, take_bytes};
use crate::endian::{endian_value, usizeify, Endian};
use crate::error::ExifError;
use crate::ifd::{directory_at, read_ifd, truncated, IFDEntry};
use vstd::prelude::*;

verus! {

/// The value of the magic field of a TIFF header.
pub const TIFF_MAGIC: usize = 42;

/// The number of bytes of the Exif marker.
pub const EXIF_MARKER_BYTES: usize = 6;

/// The marker that stands right before the TIFF section: `"Exif"` and two
/// zero bytes.
pub open spec fn exif_marker() -> Seq<u8> {
    seq![0x45u8, 0x78u8, 0x69u8, 0x66u8, 0x00u8, 0x00u8]
}

/// The byte order that the two bytes of a byte-order field name: `"II"` is
/// little endian, `"MM"` big endian, and nothing else is a byte order.
pub open spec fn byte_order_of(first: u8, second: u8) -> Option<Endian> {
    if first == 0x49 && second == 0x49 {
        Some(Endian::LittleEndian)
    } else if first == 0x4d && second == 0x4d {
        Some(Endian::BigEndian)
    } else {
        None
    }
}

/// What the eight bytes of a TIFF header say.
#[derive(Debug, Clone, Copy, PartialEq, Eq, Structural)]
pub struct TiffHeader {
    /// The byte order of every integer in the section.
    pub byte_order: Endian,
    /// Where the first directory starts, counted from the start of the
    /// section.
    pub first_ifd_offset: usize,
}

/// The first directory of a TIFF section, with the byte order it was read
/// under.
#[derive(Debug, PartialEq, Eq)]
pub struct ExifData {
    /// The byte order that the header names.
    pub byte_order: Endian,
    /// The entries of the first directory, in the order in which they lie.
    pub entries: Vec<IFDEntry>,
}

impl View for ExifData {
    type V = (Endian, Seq<IFDEntry>);

    open spec fn view(&self) -> (Endian, Seq<IFDEntry>) {
        (self.byte_order, self.entries@)
    }
}

/// A decoding result with the decoded data seen as plain values.
pub open spec fn outcome(decoded: Result<ExifData, ExifError>) -> Result<
    (Endian, Seq<IFDEntry>),
    ExifError,
> {
    match decoded {
        Ok(data) => Ok(data@),
        Err(error) => Err(error),
    }
}

impl TiffHeader {
    /// What reading the header of the TIFF section `tiff` gives.
    ///
    /// The fields are read in the order in which they lie, and the first one
    /// that is cut short or malformed decides: bytes 0 and 1 name the byte
    /// order, bytes 2 and 3 hold 42 under that order, bytes 4 to 7 hold the
    /// offset of the first directory.
    pub open spec fn decoded(tiff: Seq<u8>) -> Result<TiffHeader, ExifError> {
        let available = tiff.len() as int;
        if available < 2 {
            Err(truncated(0, 2, available))
        } else {
            match byte_order_of(tiff[0], tiff[1]) {
                None => Err(ExifError::InvalidByteOrderMarker { first: tiff[0], second: tiff[1] }),
                Some(byte_order) => {
                    let magic = endian_value(tiff.subrange(2, 4), byte_order);
                    if available < 4 {
                        Err(truncated(2, 2, available))
                    } else if magic != TIFF_MAGIC {
                        Err(ExifError::InvalidMagicNumber { found: magic as usize })
                    } else if available < 8 {
                        Err(truncated(4, 4, available))
                    } else {
                        Ok(
                            TiffHeader {
                                byte_order,
                                first_ifd_offset: endian_value(tiff.subrange(4, 8), byte_order) as usize,
                            },
                        )
                    }
                },
            }
        }
    }
}

/// What decoding the TIFF section `tiff` gives: the byte order of its header
/// and the entries of the directory that the header points at, or the error
/// of the first of the two that fails.
pub open spec fn tiff_decoded(tiff: Seq<u8>) -> Result<(Endian, Seq<IFDEntry>), ExifError> {
    match TiffHeader::decoded(tiff) {
        Err(error) => Err(error),
        Ok(header) => match directory_at(tiff, header.byte_order, header.first_ifd_offset) {
            Err(error) => Err(error),
            Ok(entries) => Ok((header.byte_order, entries)),
        },
    }
}

/// What decoding the file `bytes` gives: `MarkerNotFound` where the Exif
/// marker does not occur in it, else what the TIFF section gives, which is
/// all that follows the first occurrence of the marker.
pub open spec fn exif_decoded(bytes: Seq<u8>) -> Result<(Endian, Seq<IFDEntry>), ExifError> {
    match first_occurrence(bytes, exif_marker()) {
        None => Err(ExifError::MarkerNotFound),
        Some(marker_at) => tiff_decoded(bytes.skip(marker_at + EXIF_MARKER_BYTES)),
    }
}

/// Reads the header of a TIFF section: the byte order, the magic number and
/// the offset of the first directory.
pub fn read_tiff_header(tiff_bytes: &[u8]) -> (header: Result<TiffHeader, ExifError>)
    ensures
        header == TiffHeader::decoded(tiff_bytes@),
        header matches Ok(fields) ==> fields.first_ifd_offset == endian_value(
            tiff_bytes@.subrange(4, 8),
            fields.byte_order,
        ),
{
    let mut advance: usize = 0;

    let marker = take_bytes(tiff_bytes, &mut advance, 2)?;
    let byte_order = if marker[0] == 0x49 && marker[1] == 0x49 {
        Endian::LittleEndian
    } else if marker[0] == 0x4d && marker[1] == 0x4d {
        Endian::BigEndian
    } else {
        return Err(ExifError::InvalidByteOrderMarker { first: marker[0], second: marker[1] });
    };

    let magic = usizeify(take_bytes(tiff_bytes, &mut advance, 2)?, byte_order);
    if magic != TIFF_MAGIC {
        return Err(ExifError::InvalidMagicNumber { found: magic });
    }
    let first_ifd_offset = usizeify(take_bytes(tiff_bytes, &mut advance, 4)?, byte_order);

    Ok(TiffHeader { byte_order, first_ifd_offset })
}

/// Decodes a TIFF section: its header, then the directory that the header
/// points at.
pub fn decode_tiff(tiff_bytes: &[u8]) -> (decoded: Result<ExifData, ExifError>)
    ensures
        outcome(decoded) == tiff_decoded(tiff_bytes@),
{
    let header = read_tiff_header(tiff_bytes)?;
    let entries = read_ifd(tiff_bytes, header.byte_order, header.first_ifd_offset)?;
    Ok(ExifData { byte_order: header.byte_order, entries })
}

/// Decodes the Exif block of a file: finds the Exif marker and decodes the
/// TIFF section that follows it.
///
/// A file without the marker gives `MarkerNotFound`, and no other file does.
pub fn decode_exif(bytes: &[u8]) -> (decoded: Result<ExifData, ExifError>)
    ensures
        outcome(decoded) == exif_decoded(bytes@),
        decoded matches Err(ExifError::MarkerNotFound) <==> !occurs(bytes@, exif_marker()),
{
    let exif_header: [u8; 6] = [0x45, 0x78, 0x69, 0x66, 0x00, 0x00];
    let needle = exif_header.as_slice();
    let end = bytes.len();
    match find_bytes(bytes, needle) {
        None => Err(ExifError::MarkerNotFound),
        Some(exif_header_index) => {
            proof {
                lemma_first_occurrence_is(bytes@, exif_marker(), exif_header_index as int);
            }
            let tiff_index = exif_header_index + EXIF_MARKER_BYTES;
            let tiff_bytes = &bytes[tiff_index..end];
            decode_tiff(tiff_bytes)
        },
    }
}

} // verus!

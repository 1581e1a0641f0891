//! The ways in which decoding a buffer can fail.

use vstd::prelude::*;

verus! {

/// Why a buffer could not be decoded.
///
/// Every failure is reported to the caller as a value; no byte order or
/// length is ever guessed in place of a malformed field.
#[derive(Debug, Clone, Copy, PartialEq, Eq, Structural)]
pub enum ExifError {
    /// The Exif marker occurs nowhere in the buffer.
    MarkerNotFound,
    /// The byte-order field holds `first`, `second`, which spell neither
    /// `"II"` nor `"MM"`.
    InvalidByteOrderMarker { first: u8, second: u8 },
    /// The magic field decodes to `found` under the detected byte order; a
    /// TIFF section has 42 there.
    InvalidMagicNumber { found: usize },
    /// A read of `needed` bytes starting at `offset` would pass the end of a
    /// buffer that holds `available` bytes. `offset` counts from the start of
    /// the buffer that was handed to the function that failed.
    TruncatedBuffer { offset: usize, needed: usize, available: usize },
}

} // verus!

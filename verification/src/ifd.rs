//! Image file directories: the 12-byte entry and the counted table of them.

use crate::bytes::take_bytes;
use crate::endian::{endian_value, lemma_endian_value_bound, usizeify, Endian};
use crate::error::ExifError;
use crate::registry::{EntryTag, EntryType};
use vstd::arithmetic::power2::lemma2_to64;
use vstd::prelude::*;

verus! {

/// The number of bytes that one directory entry takes.
pub const ENTRY_BYTES: usize = 12;

/// One record of an image file directory.
#[derive(Debug, Clone, Copy, PartialEq, Eq, Structural)]
pub struct IFDEntry {
    /// What the entry describes, from bytes 0 and 1.
    pub tag: EntryTag,
    /// The type of its values, from bytes 2 and 3.
    pub field_type: EntryType,
    /// How many values of that type it has, from bytes 4 to 7.
    pub count: u32,
    /// Bytes 8 to 11 as one integer: the values themselves where they fit
    /// into four bytes, else the offset in the TIFF section at which they
    /// lie. The field is kept as it was read; it is not told apart here.
    pub value_offset: u32,
}

/// The error of a read of `needed` bytes at `offset` that a buffer of
/// `available` bytes is too short for.
pub open spec fn truncated(offset: int, needed: int, available: int) -> ExifError {
    ExifError::TruncatedBuffer {
        offset: offset as usize,
        needed: needed as usize,
        available: available as usize,
    }
}

impl IFDEntry {
    /// The entry that the first twelve bytes of `bytes` encode under `order`.
    pub open spec fn of_bytes(bytes: Seq<u8>, order: Endian) -> IFDEntry {
        IFDEntry {
            tag: EntryTag::of_code(endian_value(bytes.subrange(0, 2), order) as usize),
            field_type: EntryType::of_code(endian_value(bytes.subrange(2, 4), order) as usize),
            count: endian_value(bytes.subrange(4, 8), order) as u32,
            value_offset: endian_value(bytes.subrange(8, 12), order) as u32,
        }
    }

    /// What decoding an entry from `bytes` gives: the entry where `bytes`
    /// holds all twelve bytes of it, else the first of its four fields, in
    /// the order tag, type, count, value, that `bytes` ends before or within.
    pub open spec fn decoded(bytes: Seq<u8>, order: Endian) -> Result<IFDEntry, ExifError> {
        let available = bytes.len() as int;
        if available < 2 {
            Err(truncated(0, 2, available))
        } else if available < 4 {
            Err(truncated(2, 2, available))
        } else if available < 8 {
            Err(truncated(4, 4, available))
        } else if available < 12 {
            Err(truncated(8, 4, available))
        } else {
            Ok(IFDEntry::of_bytes(bytes, order))
        }
    }

    /// Decodes the directory entry that `ifd_bytes` starts with. Bytes after
    /// the twelfth are not looked at, and each field holds the whole of the
    /// number that its bytes encode.
    pub fn from_slice(ifd_bytes: &[u8], byte_order: Endian) -> (entry: Result<IFDEntry, ExifError>)
        ensures
            entry == IFDEntry::decoded(ifd_bytes@, byte_order),
            entry matches Ok(fields) ==> {
                &&& fields.tag.code_spec() == endian_value(ifd_bytes@.subrange(0, 2), byte_order)
                &&& fields.field_type.code_spec() == endian_value(
                    ifd_bytes@.subrange(2, 4),
                    byte_order,
                )
                &&& fields.count == endian_value(ifd_bytes@.subrange(4, 8), byte_order)
                &&& fields.value_offset == endian_value(ifd_bytes@.subrange(8, 12), byte_order)
            },
    {
        let mut ifd_advance: usize = 0;

        let entry_tag = usizeify(take_bytes(ifd_bytes, &mut ifd_advance, 2)?, byte_order);
        let field_type = usizeify(take_bytes(ifd_bytes, &mut ifd_advance, 2)?, byte_order);
        let count = usizeify(take_bytes(ifd_bytes, &mut ifd_advance, 4)?, byte_order);
        let value_offset = usizeify(take_bytes(ifd_bytes, &mut ifd_advance, 4)?, byte_order);

        proof {
            lemma2_to64();
            lemma_endian_value_bound(ifd_bytes@.subrange(4, 8), byte_order);
            lemma_endian_value_bound(ifd_bytes@.subrange(8, 12), byte_order);
        }
        Ok(
            IFDEntry {
                tag: EntryTag::from_usize(entry_tag),
                field_type: EntryType::from_usize(field_type),
                count: count as u32,
                value_offset: value_offset as u32,
            },
        )
    }
}

/// The offset in `tiff` at which entry `index` of the directory at
/// `ifd_offset` starts: past the two bytes of the entry count and the
/// entries before it.
pub open spec fn entry_offset(ifd_offset: int, index: int) -> int {
    ifd_offset + 2 + ENTRY_BYTES * index
}

/// What reading the directory at `ifd_offset` of the TIFF section `tiff`
/// gives.
///
/// The directory is a two-byte count and then that many entries of twelve
/// bytes, which come out in the order in which they lie. Where `tiff` ends
/// before the count or before one of the entries is complete, the error names
/// the first read that does not fit: the count, or the first entry that is
/// not whole.
pub open spec fn directory_at(tiff: Seq<u8>, order: Endian, ifd_offset: usize) -> Result<
    Seq<IFDEntry>,
    ExifError,
> {
    let available = tiff.len() as int;
    if ifd_offset + 2 > available {
        Err(truncated(ifd_offset as int, 2, available))
    } else {
        let num_entries = endian_value(tiff.subrange(ifd_offset as int, ifd_offset + 2), order);
        let whole_entries = (available - entry_offset(ifd_offset as int, 0)) / (ENTRY_BYTES as int);
        if whole_entries < num_entries {
            Err(truncated(entry_offset(ifd_offset as int, whole_entries), ENTRY_BYTES as int, available))
        } else {
            Ok(
                Seq::new(
                    num_entries,
                    |index: int|
                        IFDEntry::of_bytes(
                            tiff.subrange(
                                entry_offset(ifd_offset as int, index),
                                entry_offset(ifd_offset as int, index + 1),
                            ),
                            order,
                        ),
                ),
            )
        }
    }
}

/// A directory result with the entries seen as a sequence.
pub open spec fn listed(entries: Result<Vec<IFDEntry>, ExifError>) -> Result<
    Seq<IFDEntry>,
    ExifError,
> {
    match entries {
        Ok(list) => Ok(list@),
        Err(error) => Err(error),
    }
}

/// Reads the directory that starts at `ifd_offset` in the TIFF section
/// `tiff_bytes`: its entry count, then each entry in turn.
pub fn read_ifd(tiff_bytes: &[u8], byte_order: Endian, ifd_offset: usize) -> (entries: Result<
    Vec<IFDEntry>,
    ExifError,
>)
    ensures
        listed(entries) == directory_at(tiff_bytes@, byte_order, ifd_offset),
{
    let mut advance = ifd_offset;
    let num_entries = usizeify(take_bytes(tiff_bytes, &mut advance, 2)?, byte_order);

    let ghost tiff = tiff_bytes@;
    let mut ifd_entries: Vec<IFDEntry> = Vec::new();
    let mut entry_index: usize = 0;
    while entry_index < num_entries
        invariant
            tiff == tiff_bytes@,
            ifd_offset + 2 <= tiff.len(),
            num_entries == endian_value(tiff.subrange(ifd_offset as int, ifd_offset + 2), byte_order),
            entry_index <= num_entries,
            advance == entry_offset(ifd_offset as int, entry_index as int),
            advance <= tiff.len(),
            ifd_entries.len() == entry_index,
            forall|index: int|
                0 <= index < entry_index ==> ifd_entries[index] == IFDEntry::of_bytes(
                    tiff.subrange(
                        entry_offset(ifd_offset as int, index),
                        entry_offset(ifd_offset as int, index + 1),
                    ),
                    byte_order,
                ),
        decreases num_entries - entry_index,
    {
        let entry_bytes = take_bytes(tiff_bytes, &mut advance, ENTRY_BYTES)?;
        let entry = IFDEntry::from_slice(entry_bytes, byte_order)?;
        ifd_entries.push(entry);
        entry_index += 1;
    }
    proof {
        let expected = directory_at(tiff, byte_order, ifd_offset);
        assert(ifd_entries@ =~= expected->Ok_0);
    }
    Ok(ifd_entries)
}

} // verus!

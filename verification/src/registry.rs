//! The numeric codes of a directory entry, by name: which tag an entry
//! carries and of which type its values are.
//!
//! Both sets are small on purpose. A code without a name is no error: it is
//! kept as it was read, so a new name is one more constant and one more arm.

use vstd::prelude::*;

verus! {

/// The code of the tag `Orientation`.
pub const ORIENTATION_CODE: usize = 274;

/// The code of the type `Short`.
pub const SHORT_CODE: usize = 3;

/// What a directory entry describes.
#[derive(Debug, Clone, Copy, PartialEq, Eq, Structural)]
pub enum EntryTag {
    /// How the image is turned (code 274).
    Orientation,
    /// A code without a name here, kept as it was read.
    Unrecognized(usize),
}

/// The type of the values of a directory entry.
#[derive(Debug, Clone, Copy, PartialEq, Eq, Structural)]
pub enum EntryType {
    /// Unsigned 16-bit integers (code 3).
    Short,
    /// A code without a name here, kept as it was read.
    Unrecognized(usize),
}

impl EntryTag {
    /// The tag that `value` stands for.
    pub open spec fn of_code(value: usize) -> EntryTag {
        if value == ORIENTATION_CODE {
            EntryTag::Orientation
        } else {
            EntryTag::Unrecognized(value)
        }
    }

    /// The code that this tag was read from.
    pub open spec fn code_spec(self) -> usize {
        match self {
            EntryTag::Orientation => ORIENTATION_CODE,
            EntryTag::Unrecognized(value) => value,
        }
    }

    /// Names the tag code `value`; a code without a name comes back inside
    /// `Unrecognized`.
    pub fn from_usize(value: usize) -> (tag: EntryTag)
        ensures
            tag == EntryTag::of_code(value),
            tag.code_spec() == value,
            value != ORIENTATION_CODE ==> tag == EntryTag::Unrecognized(value),
    {
        match value {
            ORIENTATION_CODE => EntryTag::Orientation,
            _ => EntryTag::Unrecognized(value),
        }
    }

    /// The numeric code of this tag.
    pub fn code(&self) -> (value: usize)
        ensures
            value == self.code_spec(),
    {
        match self {
            EntryTag::Orientation => ORIENTATION_CODE,
            EntryTag::Unrecognized(value) => *value,
        }
    }
}

impl EntryType {
    /// The type that `value` stands for.
    pub open spec fn of_code(value: usize) -> EntryType {
        if value == SHORT_CODE {
            EntryType::Short
        } else {
            EntryType::Unrecognized(value)
        }
    }

    /// The code that this type was read from.
    pub open spec fn code_spec(self) -> usize {
        match self {
            EntryType::Short => SHORT_CODE,
            EntryType::Unrecognized(value) => value,
        }
    }

    /// Names the type code `value`; a code without a name comes back inside
    /// `Unrecognized`.
    pub fn from_usize(value: usize) -> (field_type: EntryType)
        ensures
            field_type == EntryType::of_code(value),
            field_type.code_spec() == value,
            value != SHORT_CODE ==> field_type == EntryType::Unrecognized(value),
    {
        match value {
            SHORT_CODE => EntryType::Short,
            _ => EntryType::Unrecognized(value),
        }
    }

    /// The numeric code of this type.
    pub fn code(&self) -> (value: usize)
        ensures
            value == self.code_spec(),
    {
        match self {
            EntryType::Short => SHORT_CODE,
            EntryType::Unrecognized(value) => *value,
        }
    }
}

} // verus!

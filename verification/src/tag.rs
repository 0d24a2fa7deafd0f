//! The values that the twelve tag types carry.
use crate::entries_of;
use crate::items_of;
use crate::model::Entries;
use crate::model::TagModel;
use crate::model::TextModel;
use crate::text::from_utf8_lossy;
use crate::text::utf8_lossy_text;
use crate::NBTTag;
use vstd::prelude::*;

pub mod compound;

verus! {

/// An 8-bit signed integer.
#[derive(Default, Debug, Copy, Clone, Eq, PartialEq)]
pub struct Byte(pub i8);

/// A 16-bit signed integer.
#[derive(Default, Debug, Copy, Clone, Eq, PartialEq)]
pub struct Short(pub i16);

/// A 32-bit signed integer.
#[derive(Default, Debug, Copy, Clone, Eq, PartialEq)]
pub struct Int(pub i32);

/// A 64-bit signed integer.
#[derive(Default, Debug, Copy, Clone, Eq, PartialEq)]
pub struct Long(pub i64);

/// A 32-bit IEEE-754 number, held as its bit pattern so that every payload,
/// that of a NaN too, is kept as it is.
#[derive(Default, Debug, Copy, Clone, Eq, PartialEq)]
pub struct Float(pub u32);

/// A 64-bit IEEE-754 number, held as its bit pattern so that every payload,
/// that of a NaN too, is kept as it is.
#[derive(Default, Debug, Copy, Clone, Eq, PartialEq)]
pub struct Double(pub u64);

/// A string of characters.
///
/// Its Modified UTF-8 form should never be longer than [`i16::MAX`] bytes.
#[derive(Debug, Eq, PartialEq)]
pub enum String {
    /// Text.
    Utf8(std::string::String),
    /// Bytes that are not Modified UTF-8 and are kept as they were read.
    Bytes(Vec<u8>),
}

/// A map from names to tags, in the order in which the names were first inserted.
///
/// No name occurs twice in a compound that [`Compound::wf`] holds of.
#[derive(Default, Debug, PartialEq)]
pub struct Compound(pub Vec<(std::string::String, NBTTag)>);

/// A variable-length list of tags of one type.
///
/// Writing fails for a list that holds a tag whose type is not that of the
/// first element.
#[derive(Default, Debug, PartialEq)]
pub struct List(pub Vec<NBTTag>);

/// A variable-length array of 8-bit signed integers.
#[derive(Default, Debug, Eq, PartialEq)]
pub struct ByteArray(pub Vec<i8>);

/// A variable-length array of 32-bit signed integers.
#[derive(Default, Debug, Eq, PartialEq)]
pub struct IntArray(pub Vec<i32>);

/// A variable-length array of 64-bit signed integers.
#[derive(Default, Debug, Eq, PartialEq)]
pub struct LongArray(pub Vec<i64>);

impl View for Byte {
    type V = TagModel;

    open spec fn view(&self) -> TagModel {
        TagModel::Byte(self.0)
    }
}

impl View for Short {
    type V = TagModel;

    open spec fn view(&self) -> TagModel {
        TagModel::Short(self.0)
    }
}

impl View for Int {
    type V = TagModel;

    open spec fn view(&self) -> TagModel {
        TagModel::Int(self.0)
    }
}

impl View for Long {
    type V = TagModel;

    open spec fn view(&self) -> TagModel {
        TagModel::Long(self.0)
    }
}

impl View for Float {
    type V = TagModel;

    open spec fn view(&self) -> TagModel {
        TagModel::Float(self.0)
    }
}

impl View for Double {
    type V = TagModel;

    open spec fn view(&self) -> TagModel {
        TagModel::Double(self.0)
    }
}

impl String {
    /// The string as text: the text itself, or the bytes read as UTF-8 with
    /// U+FFFD in the place of what is not UTF-8.
    pub fn to_string_lossy(&self) -> (out: std::string::String)
        ensures
            out@ == match self {
                String::Utf8(text) => text@,
                String::Bytes(bytes) => utf8_lossy_text(bytes@),
            },
    {
        match self {
            String::Utf8(text) => text.clone(),
            String::Bytes(bytes) => from_utf8_lossy(bytes.as_slice()),
        }
    }

    /// The text or the bytes that the string holds.
    pub open spec fn text(&self) -> TextModel {
        match self {
            String::Utf8(text) => TextModel::Utf8(text@),
            String::Bytes(bytes) => TextModel::Bytes(bytes@),
        }
    }
}

impl Clone for String {
    /// Copies the string.
    fn clone(&self) -> (copy: Self)
        ensures
            copy@ == self@,
    {
        match self {
            String::Utf8(text) => String::Utf8(text.clone()),
            String::Bytes(bytes) => {
                let copy = bytes.clone();
                assert(copy@ =~= bytes@);
                String::Bytes(copy)
            },
        }
    }
}

impl Clone for ByteArray {
    /// Copies the array.
    fn clone(&self) -> (copy: Self)
        ensures
            copy@ == self@,
    {
        let copy = self.0.clone();
        assert(copy@ =~= self.0@);
        ByteArray(copy)
    }
}

impl Clone for IntArray {
    /// Copies the array.
    fn clone(&self) -> (copy: Self)
        ensures
            copy@ == self@,
    {
        let copy = self.0.clone();
        assert(copy@ =~= self.0@);
        IntArray(copy)
    }
}

impl Clone for LongArray {
    /// Copies the array.
    fn clone(&self) -> (copy: Self)
        ensures
            copy@ == self@,
    {
        let copy = self.0.clone();
        assert(copy@ =~= self.0@);
        LongArray(copy)
    }
}

impl View for String {
    type V = TagModel;

    open spec fn view(&self) -> TagModel {
        TagModel::String(self.text())
    }
}

impl Compound {
    /// The entries of the compound, in their order.
    pub open spec fn entries(&self) -> Entries {
        entries_of(self.0@)
    }
}

impl View for Compound {
    type V = TagModel;

    open spec fn view(&self) -> TagModel {
        TagModel::Compound(self.entries())
    }
}

impl List {
    /// The elements of the list, in their order.
    pub open spec fn items(&self) -> Seq<TagModel> {
        items_of(self.0@)
    }
}

impl View for List {
    type V = TagModel;

    open spec fn view(&self) -> TagModel {
        TagModel::List(self.items())
    }
}

impl View for ByteArray {
    type V = TagModel;

    open spec fn view(&self) -> TagModel {
        TagModel::ByteArray(self.0@)
    }
}

impl View for IntArray {
    type V = TagModel;

    open spec fn view(&self) -> TagModel {
        TagModel::IntArray(self.0@)
    }
}

impl View for LongArray {
    type V = TagModel;

    open spec fn view(&self) -> TagModel {
        TagModel::LongArray(self.0@)
    }
}

} // verus!

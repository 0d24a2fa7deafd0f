//! The mathematical value of a tag tree, over which the wire format is stated.
use crate::mutf8::encoded;
use crate::mutf8::survives;
use crate::mutf8::text_of;
use crate::NBTTagType;
use vstd::prelude::*;

verus! {

/// The value of a string tag: text, or bytes that are not Modified UTF-8.
pub enum TextModel {
    Utf8(Seq<char>),
    Bytes(Seq<u8>),
}

/// The value of a tag. Floating-point payloads are held as bit patterns,
/// compounds as their entries in insertion order.
pub enum TagModel {
    Byte(i8),
    Short(i16),
    Int(i32),
    Long(i64),
    Float(u32),
    Double(u64),
    String(TextModel),
    Compound(Seq<(Seq<char>, TagModel)>),
    List(Seq<TagModel>),
    ByteArray(Seq<i8>),
    IntArray(Seq<i32>),
    LongArray(Seq<i64>),
}

/// The entries of a compound.
pub type Entries = Seq<(Seq<char>, TagModel)>;

impl TagModel {
    /// The type of the tag.
    pub open spec fn tag_type(self) -> NBTTagType {
        match self {
            TagModel::Byte(_) => NBTTagType::Byte,
            TagModel::Short(_) => NBTTagType::Short,
            TagModel::Int(_) => NBTTagType::Int,
            TagModel::Long(_) => NBTTagType::Long,
            TagModel::Float(_) => NBTTagType::Float,
            TagModel::Double(_) => NBTTagType::Double,
            TagModel::String(_) => NBTTagType::String,
            TagModel::Compound(_) => NBTTagType::Compound,
            TagModel::List(_) => NBTTagType::List,
            TagModel::ByteArray(_) => NBTTagType::ByteArray,
            TagModel::IntArray(_) => NBTTagType::IntArray,
            TagModel::LongArray(_) => NBTTagType::LongArray,
        }
    }

    /// The byte that names the tag's type on the wire.
    pub open spec fn id(self) -> u8 {
        type_id(self.tag_type())
    }

    /// Whether the tag is one that reading gives back as it was written:
    /// every text in it, names too, comes back from its Modified UTF-8 bytes;
    /// every string held as bytes holds bytes that are not Modified UTF-8; and
    /// no compound holds a name twice.
    pub open spec fn faithful(self) -> bool
        decreases self,
    {
        match self {
            TagModel::String(TextModel::Utf8(text)) => survives(text),
            TagModel::String(TextModel::Bytes(bytes)) => text_of(bytes) is None,
            TagModel::Compound(entries) => {
                &&& distinct_keys(entries)
                &&& forall|i: int|
                    0 <= i < entries.len() ==> survives((#[trigger] entries[i]).0)
                        && entries[i].1.faithful()
            },
            TagModel::List(items) => forall|i: int|
                0 <= i < items.len() ==> (#[trigger] items[i]).faithful(),
            _ => true,
        }
    }

    /// Whether the tag can be written: every list in it holds no more than
    /// [`i32::MAX`] tags, all of the type of the first; every array holds no
    /// more than [`i32::MAX`] numbers; and every string in it, names too, has no
    /// more than [`i16::MAX`] bytes, which for text are those of its Modified
    /// UTF-8 form.
    pub open spec fn writable(self) -> bool
        decreases self,
    {
        match self {
            TagModel::String(TextModel::Utf8(text)) => encoded(text).len() <= 0x7fff,
            TagModel::String(TextModel::Bytes(bytes)) => bytes.len() <= 0x7fff,
            TagModel::ByteArray(items) => items.len() <= 0x7fff_ffff,
            TagModel::IntArray(items) => items.len() <= 0x7fff_ffff,
            TagModel::LongArray(items) => items.len() <= 0x7fff_ffff,
            TagModel::List(items) => {
                &&& items.len() <= 0x7fff_ffff
                &&& forall|i: int|
                    0 <= i < items.len() ==> (#[trigger] items[i]).id() == items[0].id()
                        && items[i].writable()
            },
            TagModel::Compound(entries) => forall|i: int|
                0 <= i < entries.len() ==> encoded((#[trigger] entries[i]).0).len() <= 0x7fff
                    && entries[i].1.writable(),
            _ => true,
        }
    }

    /// Whether every list in the tree holds tags of one type.
    pub open spec fn homogeneous(self) -> bool
        decreases self,
    {
        match self {
            TagModel::List(items) => {
                forall|i: int|
                    0 <= i < items.len() ==> (#[trigger] items[i]).id() == items[0].id()
                        && items[i].homogeneous()
            },
            TagModel::Compound(entries) => {
                forall|i: int| 0 <= i < entries.len() ==> (#[trigger] entries[i]).1.homogeneous()
            },
            _ => true,
        }
    }

    /// No compound anywhere in the tree holds a name twice.
    pub open spec fn wf(self) -> bool
        decreases self,
    {
        match self {
            TagModel::Compound(entries) => {
                &&& distinct_keys(entries)
                &&& forall|i: int| 0 <= i < entries.len() ==> (#[trigger] entries[i]).1.wf()
            },
            TagModel::List(items) => forall|i: int| 0 <= i < items.len() ==> (#[trigger] items[i]).wf(),
            _ => true,
        }
    }
}

/// The byte that names a tag type on the wire. Zero names no type: it ends a compound.
pub open spec fn type_id(t: NBTTagType) -> u8 {
    match t {
        NBTTagType::Byte => 1,
        NBTTagType::Short => 2,
        NBTTagType::Int => 3,
        NBTTagType::Long => 4,
        NBTTagType::Float => 5,
        NBTTagType::Double => 6,
        NBTTagType::ByteArray => 7,
        NBTTagType::String => 8,
        NBTTagType::List => 9,
        NBTTagType::Compound => 10,
        NBTTagType::IntArray => 11,
        NBTTagType::LongArray => 12,
    }
}

/// No name occurs twice among the entries.
pub open spec fn distinct_keys(entries: Entries) -> bool {
    forall|i: int, j: int|
        0 <= i < j < entries.len() ==> (#[trigger] entries[i]).0 != (#[trigger] entries[j]).0
}

/// Whether an entry of that name exists.
pub open spec fn has_key(entries: Entries, key: Seq<char>) -> bool {
    exists|i: int| 0 <= i < entries.len() && (#[trigger] entries[i]).0 == key
}

/// The index of the first entry of that name.
pub open spec fn position(entries: Entries, key: Seq<char>) -> int
    recommends
        has_key(entries, key),
{
    choose|i: int|
        0 <= i < entries.len() && (#[trigger] entries[i]).0 == key && forall|j: int|
            0 <= j < i ==> (#[trigger] entries[j]).0 != key
}

/// The tag under that name, if there is one.
pub open spec fn lookup(entries: Entries, key: Seq<char>) -> Option<TagModel> {
    if has_key(entries, key) {
        Some(entries[position(entries, key)].1)
    } else {
        None
    }
}

/// The entries after a tag has been put under a name: in the place of the
/// entry of that name where there is one, else at the end.
pub open spec fn inserted(entries: Entries, key: Seq<char>, value: TagModel) -> Entries {
    if has_key(entries, key) {
        entries.update(position(entries, key), (key, value))
    } else {
        entries.push((key, value))
    }
}

} // verus!

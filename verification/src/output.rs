//! What a tag is written as: the bytes that reach the sink, and the failure
//! that stops the writing, if there is one.
use crate::err::Failure;
use crate::err::PathStep;
use crate::err::WriteFault;
use crate::format::at_root;
use crate::format::max_seq_len;
use crate::format::max_string_len;
use crate::format::under;
use crate::model::Entries;
use crate::model::TagModel;
use crate::model::TextModel;
use crate::mutf8::encoded;
use crate::wire::bytes2;
use crate::wire::bytes4;
use crate::wire::bytes8;
use crate::wire::unsigned;
use crate::wire::uvarint_bytes;
use crate::wire::zigzag;
use crate::wire::Encoding;
use vstd::prelude::*;

verus! {

/// The outcome of writing: the bytes that were appended to the sink, and the
/// failure that stopped the writing, if one did. After a failure the sink holds
/// what was written before it.
pub struct Written {
    pub bytes: Seq<u8>,
    pub failure: Option<Failure<WriteFault>>,
}

impl Written {
    /// This writing, and after it `next`, unless this one failed.
    pub open spec fn followed_by(self, next: Written) -> Written {
        if self.failure is Some {
            self
        } else {
            Written { bytes: self.bytes + next.bytes, failure: next.failure }
        }
    }

    /// The same writing, with its failure reported one step further down.
    pub open spec fn under(self, step: PathStep) -> Written {
        match self.failure {
            Some(f) => Written { bytes: self.bytes, failure: Some(under(step, f)) },
            None => self,
        }
    }
}

/// Bytes written without a failure.
pub open spec fn emitted(bytes: Seq<u8>) -> Written {
    Written { bytes, failure: None }
}

/// A failure before anything was written.
pub open spec fn refused(fault: WriteFault) -> Written {
    Written { bytes: Seq::empty(), failure: Some(at_root(fault)) }
}

/// The fault of a sequence of `got` elements where the prefix can express `max` at most.
pub open spec fn too_long(max: int, got: nat) -> WriteFault {
    WriteFault::SeqLengthViolation(max as usize, got as usize)
}

/// A number of byte sequences, one after the other.
pub open spec fn joined(parts: Seq<Seq<u8>>) -> Seq<u8>
    decreases parts.len(),
{
    if parts.len() == 0 {
        Seq::empty()
    } else {
        joined(parts.drop_last()) + parts.last()
    }
}

/// The byte of an 8-bit signed integer.
pub open spec fn i8_bytes(x: i8) -> Seq<u8> {
    seq![unsigned(x as int, 0x100) as u8]
}

/// The bytes of a 16-bit signed integer.
pub open spec fn i16_bytes(e: Encoding, x: i16) -> Seq<u8> {
    bytes2(e.big(), unsigned(x as int, 0x1_0000))
}

/// The bytes of a 32-bit signed integer: the variable-length form of its
/// zig-zag image in the network encoding, four bytes in the others.
pub open spec fn i32_bytes(e: Encoding, x: i32) -> Seq<u8> {
    if e is Network {
        uvarint_bytes(zigzag(x as int))
    } else {
        bytes4(e.big(), unsigned(x as int, 0x1_0000_0000))
    }
}

/// The bytes of a 64-bit signed integer: the variable-length form of its
/// zig-zag image in the network encoding, eight bytes in the others.
pub open spec fn i64_bytes(e: Encoding, x: i64) -> Seq<u8> {
    if e is Network {
        uvarint_bytes(zigzag(x as int))
    } else {
        bytes8(e.big(), unsigned(x as int, 0x1_0000_0000_0000_0000))
    }
}

/// The bytes of the bit pattern of a 32-bit floating-point number.
pub open spec fn u32_bytes(e: Encoding, bits: u32) -> Seq<u8> {
    bytes4(e.big(), bits as int)
}

/// The bytes of the bit pattern of a 64-bit floating-point number.
pub open spec fn u64_bytes(e: Encoding, bits: u64) -> Seq<u8> {
    bytes8(e.big(), bits as int)
}

/// The bytes of the length of an array or a list: four in every encoding.
pub open spec fn seq_len_bytes(e: Encoding, n: int) -> Seq<u8> {
    bytes4(e.big(), n)
}

/// The bytes of the length of a string: its variable-length form in the
/// network encoding, two bytes in the others.
pub open spec fn string_len_bytes(e: Encoding, n: int) -> Seq<u8> {
    if e is Network {
        uvarint_bytes(n as nat)
    } else {
        bytes2(e.big(), n)
    }
}

/// How an unsigned byte is written as an item of an array.
pub open spec fn u8_form() -> spec_fn(u8) -> Seq<u8> {
    |x: u8| seq![x]
}

/// How an 8-bit signed integer is written as an item of an array.
pub open spec fn i8_form() -> spec_fn(i8) -> Seq<u8> {
    |x: i8| i8_bytes(x)
}

/// How a 32-bit signed integer is written as an item of an array.
pub open spec fn i32_form(e: Encoding) -> spec_fn(i32) -> Seq<u8> {
    |x: i32| i32_bytes(e, x)
}

/// How a 64-bit signed integer is written as an item of an array.
pub open spec fn i64_form(e: Encoding) -> spec_fn(i64) -> Seq<u8> {
    |x: i64| i64_bytes(e, x)
}

/// Writing the length of an array or a list. It is refused where the length
/// is beyond what the prefix can express.
pub open spec fn seq_len_written(e: Encoding, len: nat) -> Written {
    if len > max_seq_len() {
        refused(too_long(max_seq_len(), len))
    } else {
        emitted(seq_len_bytes(e, len as int))
    }
}

/// Writing the length of a string. It is refused where the length is beyond
/// what the prefix can express.
pub open spec fn string_len_written(e: Encoding, len: nat) -> Written {
    if len > max_string_len() {
        refused(too_long(max_string_len(), len))
    } else {
        emitted(string_len_bytes(e, len as int))
    }
}

/// Writing an array: its length, then its items. It is refused where the
/// length is beyond what the prefix can express.
pub open spec fn array_written<T>(e: Encoding, items: Seq<T>, item: spec_fn(T) -> Seq<u8>) -> Written {
    if items.len() > max_seq_len() {
        refused(too_long(max_seq_len(), items.len()))
    } else {
        emitted(seq_len_bytes(e, items.len() as int) + joined(items.map_values(item)))
    }
}

/// Writing the bytes of a string: their number, then the bytes. It is
/// refused where there are more of them than the prefix can express.
pub open spec fn string_bytes_written(e: Encoding, body: Seq<u8>) -> Written {
    if body.len() > max_string_len() {
        refused(too_long(max_string_len(), body.len()))
    } else {
        emitted(string_len_bytes(e, body.len() as int) + body)
    }
}

/// Writing the payload of a string tag: text as its Modified UTF-8 bytes,
/// bytes as they are.
pub open spec fn text_written(e: Encoding, text: TextModel) -> Written {
    match text {
        TextModel::Utf8(t) => string_bytes_written(e, encoded(t)),
        TextModel::Bytes(b) => string_bytes_written(e, b),
    }
}

/// Writing the payload of a tag.
///
/// A list is written as the type of its first element (zero where it has
/// none), its length and the payloads of its elements. A compound is written
/// as its entries and a zero byte.
pub open spec fn payload_written(e: Encoding, v: TagModel) -> Written
    decreases v, 0nat,
{
    match v {
        TagModel::Byte(x) => emitted(i8_bytes(x)),
        TagModel::Short(x) => emitted(i16_bytes(e, x)),
        TagModel::Int(x) => emitted(i32_bytes(e, x)),
        TagModel::Long(x) => emitted(i64_bytes(e, x)),
        TagModel::Float(bits) => emitted(u32_bytes(e, bits)),
        TagModel::Double(bits) => emitted(u64_bytes(e, bits)),
        TagModel::String(text) => text_written(e, text),
        TagModel::ByteArray(items) => array_written(e, items, i8_form()),
        TagModel::IntArray(items) => array_written(e, items, i32_form(e)),
        TagModel::LongArray(items) => array_written(e, items, i64_form(e)),
        TagModel::List(items) => if items.len() > max_seq_len() {
            refused(too_long(max_seq_len(), items.len()))
        } else {
            emitted(seq![list_id(items)] + seq_len_bytes(e, items.len() as int)).followed_by(
                items_written(e, items, items.len()),
            )
        },
        TagModel::Compound(entries) => entries_written(e, entries, entries.len()).followed_by(
            emitted(seq![0u8]),
        ),
    }
}

/// Writing element `i` of a list: its payload, or a failure where it is of
/// another type than the first element. A failure is reported under the
/// element's number.
pub open spec fn item_written(e: Encoding, items: Seq<TagModel>, i: int) -> Written
    decreases items, 0nat,
{
    if 0 <= i < items.len() {
        (if items[i].id() != items[0].id() {
            refused(WriteFault::UnexpectedTag(items[0].tag_type(), items[i].tag_type()))
        } else {
            payload_written(e, items[i])
        }).under(PathStep::Element(i as usize))
    } else {
        emitted(Seq::empty())
    }
}

/// Writing the first `upto` elements of a list, up to the first that fails.
pub open spec fn items_written(e: Encoding, items: Seq<TagModel>, upto: nat) -> Written
    decreases items, upto,
{
    if upto == 0 || upto > items.len() {
        emitted(Seq::empty())
    } else {
        items_written(e, items, (upto - 1) as nat).followed_by(item_written(e, items, upto - 1))
    }
}

/// Writing entry `i` of a compound: the type of its tag, its name, and the
/// payload. A failure inside the payload is reported under the name.
pub open spec fn entry_written(e: Encoding, entries: Entries, i: int) -> Written
    decreases entries, 0nat,
{
    if 0 <= i < entries.len() {
        emitted(seq![entries[i].1.id()]).followed_by(
            string_bytes_written(e, encoded(entries[i].0)),
        ).followed_by(payload_written(e, entries[i].1).under(PathStep::MapKey(entries[i].0)))
    } else {
        emitted(Seq::empty())
    }
}

/// Writing the first `upto` entries of a compound, up to the first that fails.
pub open spec fn entries_written(e: Encoding, entries: Entries, upto: nat) -> Written
    decreases entries, upto,
{
    if upto == 0 || upto > entries.len() {
        emitted(Seq::empty())
    } else {
        entries_written(e, entries, (upto - 1) as nat).followed_by(
            entry_written(e, entries, upto - 1),
        )
    }
}

/// Once an element has failed, nothing more of the list is written.
pub proof fn lemma_items_written_stops(e: Encoding, items: Seq<TagModel>, at: nat, upto: nat)
    requires
        at <= upto <= items.len(),
        items_written(e, items, at).failure is Some,
    ensures
        items_written(e, items, upto) == items_written(e, items, at),
    decreases upto,
{
    if upto > at {
        lemma_items_written_stops(e, items, at, (upto - 1) as nat);
    }
}

/// Once an entry has failed, nothing more of the compound is written.
pub proof fn lemma_entries_written_stops(e: Encoding, entries: Entries, at: nat, upto: nat)
    requires
        at <= upto <= entries.len(),
        entries_written(e, entries, at).failure is Some,
    ensures
        entries_written(e, entries, upto) == entries_written(e, entries, at),
    decreases upto,
{
    if upto > at {
        lemma_entries_written_stops(e, entries, at, (upto - 1) as nat);
    }
}

/// The byte that names the type of a list's elements: that of the first
/// element, or zero for a list without elements.
pub open spec fn list_id(items: Seq<TagModel>) -> u8 {
    if items.len() == 0 {
        0
    } else {
        items[0].id()
    }
}

/// Writing a root: the byte that names its type, the empty name, its payload.
pub open spec fn root_written(e: Encoding, v: TagModel) -> Written {
    emitted(seq![v.id()] + string_len_bytes(e, 0)).followed_by(payload_written(e, v))
}

/// Writing a root under a name: the byte that names its type, the name, its
/// payload. It is refused after the first byte where the name is too long.
pub open spec fn named_root_written(e: Encoding, name: Seq<char>, v: TagModel) -> Written {
    emitted(seq![v.id()]).followed_by(string_bytes_written(e, encoded(name))).followed_by(
        payload_written(e, v),
    )
}

} // verus!

//! The wire format, stated over mathematical values: what bytes a tag is
//! written as, and what a sequence of bytes is read as.
use crate::err::Failure;
use crate::err::IoError;
use crate::err::PathStep;
use crate::err::ReadFault;
use crate::model::inserted;
use crate::model::Entries;
use crate::model::TagModel;
use crate::model::TextModel;
use crate::mutf8::text_of;
use crate::wire::lemma_pow128_positive;
use crate::wire::pow128;
use crate::wire::signed;
use crate::wire::unsigned;
use crate::wire::unzigzag;
use crate::wire::value2;
use crate::wire::value4;
use crate::wire::value8;
use crate::wire::Encoding;
use vstd::prelude::*;

verus! {

/// What reading gives: a value and the bytes that are left, or a failure.
pub type Parsed<T> = Result<(T, Seq<u8>), Failure<ReadFault>>;

/// A failure at the root.
pub open spec fn at_root<F>(fault: F) -> Failure<F> {
    Failure { fault, path: Seq::empty() }
}

/// The failure of a source that ends too early.
pub open spec fn end_of_input() -> Failure<ReadFault> {
    at_root(ReadFault::Io(IoError::UnexpectedEof))
}

/// The failure of a variable-length number that goes on for too many bytes.
pub open spec fn varint_overflow() -> Failure<ReadFault> {
    at_root(ReadFault::Custom("varint overflows integer"@))
}

/// The failure of a length prefix outside of zero to `max`.
pub open spec fn bad_length(max: int, got: int) -> Failure<ReadFault> {
    at_root(ReadFault::SeqLengthViolation(max as usize, got as i32))
}

/// The same failure, one step further down from where it is reported.
pub open spec fn under<F>(step: PathStep, f: Failure<F>) -> Failure<F> {
    Failure { fault: f.fault, path: seq![step] + f.path }
}

/// The largest length that a string's prefix can express.
pub open spec fn max_string_len() -> int {
    0x7fff
}

/// The largest length that the prefix of an array or a list can express.
pub open spec fn max_seq_len() -> int {
    0x7fff_ffff
}

/// Reads one byte.
pub open spec fn parse_u8(s: Seq<u8>) -> Parsed<u8> {
    if s.len() >= 1 {
        Ok((s[0], s.skip(1)))
    } else {
        Err(end_of_input())
    }
}

/// Reads one byte as a signed number.
pub open spec fn parse_i8(s: Seq<u8>) -> Parsed<i8> {
    if s.len() >= 1 {
        Ok((signed(s[0] as int, 0x100) as i8, s.skip(1)))
    } else {
        Err(end_of_input())
    }
}

/// Reads the byte that ends a compound.
pub open spec fn parse_end(s: Seq<u8>) -> Parsed<()> {
    match parse_u8(s) {
        Err(f) => Err(f),
        Ok((id, rest)) => if id == 0 {
            Ok(((), rest))
        } else {
            Err(at_root(ReadFault::UnexpectedTag(0, id)))
        },
    }
}

/// Reads a fixed-width number of `width` bytes (two, four or eight).
pub open spec fn parse_fixed(big: bool, width: nat, s: Seq<u8>) -> Parsed<int> {
    if s.len() < width {
        Err(end_of_input())
    } else if width == 2 {
        Ok((value2(big, s), s.skip(2)))
    } else if width == 4 {
        Ok((value4(big, s), s.skip(4)))
    } else {
        Ok((value8(big, s), s.skip(8)))
    }
}

/// Reads a variable-length natural number of at most `limit` bytes.
pub open spec fn parse_uvarint(s: Seq<u8>, limit: nat) -> Parsed<nat>
    decreases limit,
{
    if limit == 0 {
        Err(varint_overflow())
    } else if s.len() == 0 {
        Err(end_of_input())
    } else if s[0] < 0x80 {
        Ok((s[0] as nat, s.skip(1)))
    } else {
        match parse_uvarint(s.skip(1), (limit - 1) as nat) {
            Ok((high, rest)) => Ok(((s[0] - 0x80 + 128 * high) as nat, rest)),
            Err(f) => Err(f),
        }
    }
}

/// Reads a 16-bit signed integer.
pub open spec fn parse_i16(e: Encoding, s: Seq<u8>) -> Parsed<i16> {
    match parse_fixed(e.big(), 2, s) {
        Ok((u, rest)) => Ok((signed(u, 0x1_0000) as i16, rest)),
        Err(f) => Err(f),
    }
}

/// Reads a 32-bit signed integer: of variable length in the network encoding,
/// where whatever lies above the 32nd bit is dropped; of four bytes in the others.
pub open spec fn parse_i32(e: Encoding, s: Seq<u8>) -> Parsed<i32> {
    if e is Network {
        match parse_uvarint(s, 5) {
            Ok((u, rest)) => Ok((unzigzag(u % 0x1_0000_0000) as i32, rest)),
            Err(f) => Err(f),
        }
    } else {
        match parse_fixed(e.big(), 4, s) {
            Ok((u, rest)) => Ok((signed(u, 0x1_0000_0000) as i32, rest)),
            Err(f) => Err(f),
        }
    }
}

/// Reads a 64-bit signed integer: of variable length in the network encoding,
/// where whatever lies above the 64th bit is dropped; of eight bytes in the others.
pub open spec fn parse_i64(e: Encoding, s: Seq<u8>) -> Parsed<i64> {
    if e is Network {
        match parse_uvarint(s, 10) {
            Ok((u, rest)) => Ok((unzigzag(u % 0x1_0000_0000_0000_0000) as i64, rest)),
            Err(f) => Err(f),
        }
    } else {
        match parse_fixed(e.big(), 8, s) {
            Ok((u, rest)) => Ok((signed(u, 0x1_0000_0000_0000_0000) as i64, rest)),
            Err(f) => Err(f),
        }
    }
}

/// Reads the bit pattern of a 32-bit floating-point number.
pub open spec fn parse_u32(e: Encoding, s: Seq<u8>) -> Parsed<u32> {
    match parse_fixed(e.big(), 4, s) {
        Ok((u, rest)) => Ok((u as u32, rest)),
        Err(f) => Err(f),
    }
}

/// Reads the bit pattern of a 64-bit floating-point number.
pub open spec fn parse_u64(e: Encoding, s: Seq<u8>) -> Parsed<u64> {
    match parse_fixed(e.big(), 8, s) {
        Ok((u, rest)) => Ok((u as u64, rest)),
        Err(f) => Err(f),
    }
}

/// Reads the length of an array or a list: four bytes in every encoding.
pub open spec fn parse_seq_len(e: Encoding, s: Seq<u8>) -> Parsed<usize> {
    match parse_fixed(e.big(), 4, s) {
        Ok((u, rest)) => {
            let len = signed(u, 0x1_0000_0000);
            if len < 0 {
                Err(bad_length(max_seq_len(), len))
            } else {
                Ok((len as usize, rest))
            }
        },
        Err(f) => Err(f),
    }
}

/// Reads the length of a string: a variable-length natural number in the
/// network encoding, where whatever lies above the 32nd bit is dropped; a
/// 16-bit signed integer in the others. A length that is negative or above
/// the largest that a string may have is a failure.
pub open spec fn parse_string_len(e: Encoding, s: Seq<u8>) -> Parsed<usize> {
    if e is Network {
        match parse_uvarint(s, 5) {
            Ok((u, rest)) => {
                let len = u % 0x1_0000_0000;
                if len > max_string_len() {
                    Err(bad_length(max_string_len(), signed(len as int, 0x1_0000_0000)))
                } else {
                    Ok((len as usize, rest))
                }
            },
            Err(f) => Err(f),
        }
    } else {
        match parse_fixed(e.big(), 2, s) {
            Ok((u, rest)) => {
                let len = signed(u, 0x1_0000);
                if len < 0 {
                    Err(bad_length(max_string_len(), len))
                } else {
                    Ok((len as usize, rest))
                }
            },
            Err(f) => Err(f),
        }
    }
}

/// How an unsigned byte is read as an item of an array.
pub open spec fn u8_item() -> spec_fn(Seq<u8>) -> Parsed<u8> {
    |s: Seq<u8>| parse_u8(s)
}

/// How an 8-bit signed integer is read as an item of an array.
pub open spec fn i8_item() -> spec_fn(Seq<u8>) -> Parsed<i8> {
    |s: Seq<u8>| parse_i8(s)
}

/// How a 32-bit signed integer is read as an item of an array.
pub open spec fn i32_item(e: Encoding) -> spec_fn(Seq<u8>) -> Parsed<i32> {
    |s: Seq<u8>| parse_i32(e, s)
}

/// How a 64-bit signed integer is read as an item of an array.
pub open spec fn i64_item(e: Encoding) -> spec_fn(Seq<u8>) -> Parsed<i64> {
    |s: Seq<u8>| parse_i64(e, s)
}

/// Reads `n` items one after the other, the first of them being number `at`
/// of its sequence. A failure inside an item is reported under the item's number.
pub open spec fn parse_many<T>(
    item: spec_fn(Seq<u8>) -> Parsed<T>,
    s: Seq<u8>,
    n: nat,
    at: nat,
) -> Parsed<Seq<T>>
    decreases n,
{
    if n == 0 {
        Ok((Seq::empty(), s))
    } else {
        match item(s) {
            Err(f) => Err(under(PathStep::Element(at as usize), f)),
            Ok((first, rest)) => match parse_many(item, rest, (n - 1) as nat, at + 1) {
                Err(f) => Err(f),
                Ok((others, left)) => Ok((seq![first] + others, left)),
            },
        }
    }
}

/// A reading of items, with the items read before it put in front.
pub open spec fn with_front<T>(front: Seq<T>, r: Parsed<Seq<T>>) -> Parsed<Seq<T>> {
    match r {
        Ok((items, rest)) => Ok((front + items, rest)),
        Err(f) => Err(f),
    }
}

/// Reading `n` items is reading the first and then the others.
pub proof fn lemma_parse_many_step<T>(
    item: spec_fn(Seq<u8>) -> Parsed<T>,
    s: Seq<u8>,
    n: nat,
    at: nat,
    front: Seq<T>,
)
    requires
        n > 0,
    ensures
        match item(s) {
            Ok((first, rest)) => with_front(front, parse_many(item, s, n, at)) == with_front(
                front.push(first),
                parse_many(item, rest, (n - 1) as nat, at + 1),
            ),
            Err(f) => with_front(front, parse_many(item, s, n, at)) == Err::<
                (Seq<T>, Seq<u8>),
                Failure<ReadFault>,
            >(under(PathStep::Element(at as usize), f)),
        },
{
    match item(s) {
        Ok((first, rest)) => {
            match parse_many(item, rest, (n - 1) as nat, at + 1) {
                Ok((others, left)) => {
                    assert(front + (seq![first] + others) =~= front.push(first) + others);
                },
                Err(_) => {},
            }
        },
        Err(_) => {},
    }
}

/// Reads an array: its length, then that many items.
pub open spec fn parse_array<T>(
    e: Encoding,
    item: spec_fn(Seq<u8>) -> Parsed<T>,
    s: Seq<u8>,
) -> Parsed<Seq<T>> {
    match parse_seq_len(e, s) {
        Err(f) => Err(f),
        Ok((n, rest)) => parse_many(item, rest, n as nat, 0),
    }
}

/// Reads the bytes of a string: its length, then that many bytes.
pub open spec fn parse_string_bytes(e: Encoding, s: Seq<u8>) -> Parsed<Seq<u8>> {
    match parse_string_len(e, s) {
        Err(f) => Err(f),
        Ok((n, rest)) => parse_many(u8_item(), rest, n as nat, 0),
    }
}

/// Reads a string that has to be Modified UTF-8.
pub open spec fn parse_string(e: Encoding, s: Seq<u8>) -> Parsed<Seq<char>> {
    match parse_string_bytes(e, s) {
        Err(f) => Err(f),
        Ok((bytes, rest)) => match text_of(bytes) {
            Some(text) => Ok((text, rest)),
            None => Err(at_root(ReadFault::InvalidString(bytes))),
        },
    }
}

/// Reads the payload of a string tag: text where the bytes are Modified
/// UTF-8, else the bytes themselves.
pub open spec fn parse_text(e: Encoding, s: Seq<u8>) -> Parsed<TextModel> {
    match parse_string_bytes(e, s) {
        Err(f) => Err(f),
        Ok((bytes, rest)) => match text_of(bytes) {
            Some(text) => Ok((TextModel::Utf8(text), rest)),
            None => Ok((TextModel::Bytes(bytes), rest)),
        },
    }
}

/// Reads the payload of a tag of the type that `id` names.
///
/// Every payload is at least one byte long, so what is left after one is
/// shorter than what there was. The comparisons of lengths below say so where
/// the definition needs it to be seen to end; they hold of every input.
pub open spec fn parse_payload(e: Encoding, id: u8, s: Seq<u8>) -> Parsed<TagModel>
    decreases s.len(), 2nat, 0nat,
{
    if id == 1 {
        match parse_i8(s) {
            Ok((v, rest)) => Ok((TagModel::Byte(v), rest)),
            Err(f) => Err(f),
        }
    } else if id == 2 {
        match parse_i16(e, s) {
            Ok((v, rest)) => Ok((TagModel::Short(v), rest)),
            Err(f) => Err(f),
        }
    } else if id == 3 {
        match parse_i32(e, s) {
            Ok((v, rest)) => Ok((TagModel::Int(v), rest)),
            Err(f) => Err(f),
        }
    } else if id == 4 {
        match parse_i64(e, s) {
            Ok((v, rest)) => Ok((TagModel::Long(v), rest)),
            Err(f) => Err(f),
        }
    } else if id == 5 {
        match parse_u32(e, s) {
            Ok((v, rest)) => Ok((TagModel::Float(v), rest)),
            Err(f) => Err(f),
        }
    } else if id == 6 {
        match parse_u64(e, s) {
            Ok((v, rest)) => Ok((TagModel::Double(v), rest)),
            Err(f) => Err(f),
        }
    } else if id == 7 {
        match parse_array(e, i8_item(), s) {
            Ok((v, rest)) => Ok((TagModel::ByteArray(v), rest)),
            Err(f) => Err(f),
        }
    } else if id == 8 {
        match parse_text(e, s) {
            Ok((v, rest)) => Ok((TagModel::String(v), rest)),
            Err(f) => Err(f),
        }
    } else if id == 9 {
        match parse_u8(s) {
            Err(f) => Err(f),
            Ok((item_id, after_id)) => match parse_seq_len(e, after_id) {
                Err(f) => Err(f),
                Ok((n, after_len)) => if after_len.len() < s.len() {
                    match parse_items(e, item_id, after_len, n as nat, 0) {
                        Ok((v, rest)) => Ok((TagModel::List(v), rest)),
                        Err(f) => Err(f),
                    }
                } else {
                    Err(end_of_input())
                },
            },
        }
    } else if id == 10 {
        match parse_entries(e, s, Seq::empty()) {
            Ok((v, rest)) => Ok((TagModel::Compound(v), rest)),
            Err(f) => Err(f),
        }
    } else if id == 11 {
        match parse_array(e, i32_item(e), s) {
            Ok((v, rest)) => Ok((TagModel::IntArray(v), rest)),
            Err(f) => Err(f),
        }
    } else if id == 12 {
        match parse_array(e, i64_item(e), s) {
            Ok((v, rest)) => Ok((TagModel::LongArray(v), rest)),
            Err(f) => Err(f),
        }
    } else {
        Err(at_root(ReadFault::UnknownTagType(id)))
    }
}

/// Reads the `n` payloads of a list, the first of them being number `at`.
pub open spec fn parse_items(e: Encoding, id: u8, s: Seq<u8>, n: nat, at: nat) -> Parsed<
    Seq<TagModel>,
>
    decreases s.len(), 3nat, n,
{
    if n == 0 {
        Ok((Seq::empty(), s))
    } else {
        match parse_payload(e, id, s) {
            Err(f) => Err(under(PathStep::Element(at as usize), f)),
            Ok((first, rest)) => if rest.len() <= s.len() {
                match parse_items(e, id, rest, (n - 1) as nat, at + 1) {
                    Err(f) => Err(f),
                    Ok((others, left)) => Ok((seq![first] + others, left)),
                }
            } else {
                Err(end_of_input())
            },
        }
    }
}

/// Reads the entries of a compound up to the byte that ends it, and puts each
/// into `so_far`, where a later entry takes the place of an earlier one of
/// its name.
pub open spec fn parse_entries(e: Encoding, s: Seq<u8>, so_far: Entries) -> Parsed<Entries>
    decreases s.len(), 1nat, 0nat,
{
    match parse_u8(s) {
        Err(f) => Err(f),
        Ok((id, after_id)) => if id == 0 {
            Ok((so_far, after_id))
        } else {
            match parse_string(e, after_id) {
                Err(f) => Err(f),
                Ok((name, after_name)) => if after_name.len() < s.len() {
                    match parse_payload(e, id, after_name) {
                        Err(f) => Err(under(PathStep::MapKey(name), f)),
                        Ok((value, rest)) => if rest.len() < s.len() {
                            parse_entries(e, rest, inserted(so_far, name, value))
                        } else {
                            Err(end_of_input())
                        },
                    }
                } else {
                    Err(end_of_input())
                },
            }
        }
    }
}

/// Reads a root: the byte that names its type, its name, and its payload.
/// The name is read and dropped.
pub open spec fn parse_root(e: Encoding, s: Seq<u8>) -> Parsed<TagModel> {
    match parse_u8(s) {
        Err(f) => Err(f),
        Ok((id, after_id)) => match parse_string(e, after_id) {
            Err(f) => Err(f),
            Ok((_, after_name)) => parse_payload(e, id, after_name),
        },
    }
}

/// Reads a root and keeps its name: the byte that names its type, its name,
/// and its payload.
pub open spec fn parse_named_root(e: Encoding, s: Seq<u8>) -> Parsed<(Seq<char>, TagModel)> {
    match parse_u8(s) {
        Err(f) => Err(f),
        Ok((id, after_id)) => match parse_string(e, after_id) {
            Err(f) => Err(f),
            Ok((name, after_name)) => match parse_payload(e, id, after_name) {
                Err(f) => Err(f),
                Ok((v, rest)) => Ok(((name, v), rest)),
            },
        },
    }
}

/// Reads a root that has to be of the type that `want` names: the byte that
/// names its type, its name, and its payload. The name is read and dropped.
pub open spec fn parse_root_of(e: Encoding, want: u8, s: Seq<u8>) -> Parsed<TagModel> {
    match parse_u8(s) {
        Err(f) => Err(f),
        Ok((id, after_id)) => if id != want {
            Err(at_root(ReadFault::UnexpectedTag(want, id)))
        } else {
            match parse_string(e, after_id) {
                Err(f) => Err(f),
                Ok((_, after_name)) => parse_payload(e, want, after_name),
            }
        },
    }
}

/// Whatever a parser of items gives back as left over is no longer than what it was given.
pub open spec fn never_grows<T>(item: spec_fn(Seq<u8>) -> Parsed<T>) -> bool {
    forall|s: Seq<u8>| (#[trigger] item(s)) matches Ok((_, rest)) ==> rest.len() <= s.len()
}

/// Reading a variable-length number takes at least one byte.
pub proof fn lemma_uvarint_shrinks(s: Seq<u8>, limit: nat)
    ensures
        parse_uvarint(s, limit) matches Ok((_, rest)) ==> rest.len() < s.len(),
    decreases limit,
{
    if limit > 0 && s.len() > 0 && s[0] >= 0x80 {
        lemma_uvarint_shrinks(s.skip(1), (limit - 1) as nat);
    }
}

/// A variable-length number of at most `limit` bytes is below 128 to the
/// power of `limit`.
pub proof fn lemma_uvarint_bound(s: Seq<u8>, limit: nat)
    ensures
        parse_uvarint(s, limit) matches Ok((u, _)) ==> u < pow128(limit),
    decreases limit,
{
    if limit > 0 {
        lemma_pow128_positive((limit - 1) as nat);
        if s.len() > 0 && s[0] >= 0x80 {
            lemma_uvarint_bound(s.skip(1), (limit - 1) as nat);
        }
    }
}

/// Reading a number or a length takes at least one byte.
pub proof fn lemma_numbers_shrink(e: Encoding, s: Seq<u8>)
    ensures
        parse_i16(e, s) matches Ok((_, rest)) ==> rest.len() < s.len(),
        parse_i32(e, s) matches Ok((_, rest)) ==> rest.len() < s.len(),
        parse_i64(e, s) matches Ok((_, rest)) ==> rest.len() < s.len(),
        parse_u32(e, s) matches Ok((_, rest)) ==> rest.len() < s.len(),
        parse_u64(e, s) matches Ok((_, rest)) ==> rest.len() < s.len(),
        parse_seq_len(e, s) matches Ok((_, rest)) ==> rest.len() < s.len(),
        parse_string_len(e, s) matches Ok((_, rest)) ==> rest.len() < s.len(),
        never_grows(u8_item()),
        never_grows(i8_item()),
        never_grows(i32_item(e)),
        never_grows(i64_item(e)),
{
    lemma_uvarint_shrinks(s, 5);
    lemma_uvarint_shrinks(s, 10);
    assert forall|b: Seq<u8>|
        ((#[trigger] i32_item(e)(b)) matches Ok((_, rest)) ==> rest.len() <= b.len()) by {
        lemma_uvarint_shrinks(b, 5);
    }
    assert forall|b: Seq<u8>|
        ((#[trigger] i64_item(e)(b)) matches Ok((_, rest)) ==> rest.len() <= b.len()) by {
        lemma_uvarint_shrinks(b, 10);
    }
}

/// Reading items leaves no more than there was.
pub proof fn lemma_parse_many_shrinks<T>(
    item: spec_fn(Seq<u8>) -> Parsed<T>,
    s: Seq<u8>,
    n: nat,
    at: nat,
)
    requires
        never_grows(item),
    ensures
        parse_many(item, s, n, at) matches Ok((items, rest)) ==> rest.len() <= s.len()
            && items.len() == n,
    decreases n,
{
    if n > 0 {
        match item(s) {
            Ok((_, rest)) => {
                lemma_parse_many_shrinks(item, rest, (n - 1) as nat, at + 1);
            },
            Err(_) => {},
        }
    }
}

/// Reading a string takes at least one byte.
pub proof fn lemma_string_shrinks(e: Encoding, s: Seq<u8>)
    ensures
        parse_string_bytes(e, s) matches Ok((_, rest)) ==> rest.len() < s.len(),
        parse_string(e, s) matches Ok((_, rest)) ==> rest.len() < s.len(),
        parse_text(e, s) matches Ok((_, rest)) ==> rest.len() < s.len(),
{
    lemma_numbers_shrink(e, s);
    match parse_string_len(e, s) {
        Ok((n, rest)) => {
            lemma_parse_many_shrinks(u8_item(), rest, n as nat, 0);
        },
        Err(_) => {},
    }
}

/// Reading an array takes at least one byte.
pub proof fn lemma_array_shrinks<T>(e: Encoding, item: spec_fn(Seq<u8>) -> Parsed<T>, s: Seq<u8>)
    requires
        never_grows(item),
    ensures
        parse_array(e, item, s) matches Ok((_, rest)) ==> rest.len() < s.len(),
{
    lemma_numbers_shrink(e, s);
    match parse_seq_len(e, s) {
        Ok((n, rest)) => {
            lemma_parse_many_shrinks(item, rest, n as nat, 0);
        },
        Err(_) => {},
    }
}

/// Reading a payload takes at least one byte.
pub proof fn lemma_payload_shrinks(e: Encoding, id: u8, s: Seq<u8>)
    ensures
        parse_payload(e, id, s) matches Ok((_, rest)) ==> rest.len() < s.len(),
    decreases s.len(), 2nat, 0nat,
{
    lemma_numbers_shrink(e, s);
    lemma_string_shrinks(e, s);
    if id == 7 {
        lemma_array_shrinks(e, i8_item(), s);
    } else if id == 11 {
        lemma_array_shrinks(e, i32_item(e), s);
    } else if id == 12 {
        lemma_array_shrinks(e, i64_item(e), s);
    } else if id == 9 {
        match parse_u8(s) {
            Ok((item_id, after_id)) => {
                lemma_numbers_shrink(e, after_id);
                match parse_seq_len(e, after_id) {
                    Ok((n, after_len)) => {
                        lemma_items_shrink(e, item_id, after_len, n as nat, 0);
                    },
                    Err(_) => {},
                }
            },
            Err(_) => {},
        }
    } else if id == 10 {
        lemma_entries_shrink(e, s, Seq::empty());
    }
}

/// Reading the payloads of a list leaves no more than there was.
pub proof fn lemma_items_shrink(e: Encoding, id: u8, s: Seq<u8>, n: nat, at: nat)
    ensures
        parse_items(e, id, s, n, at) matches Ok((items, rest)) ==> rest.len() <= s.len()
            && items.len() == n,
    decreases s.len(), 3nat, n,
{
    if n > 0 {
        lemma_payload_shrinks(e, id, s);
        match parse_payload(e, id, s) {
            Ok((_, rest)) => {
                lemma_items_shrink(e, id, rest, (n - 1) as nat, at + 1);
            },
            Err(_) => {},
        }
    }
}

/// Reading the payloads of a list is reading the first and then the others.
pub proof fn lemma_parse_items_step(
    e: Encoding,
    id: u8,
    s: Seq<u8>,
    n: nat,
    at: nat,
    front: Seq<TagModel>,
)
    requires
        n > 0,
    ensures
        match parse_payload(e, id, s) {
            Ok((first, rest)) => with_front(front, parse_items(e, id, s, n, at)) == with_front(
                front.push(first),
                parse_items(e, id, rest, (n - 1) as nat, at + 1),
            ),
            Err(f) => with_front(front, parse_items(e, id, s, n, at)) == Err::<
                (Seq<TagModel>, Seq<u8>),
                Failure<ReadFault>,
            >(under(PathStep::Element(at as usize), f)),
        },
{
    lemma_payload_shrinks(e, id, s);
    match parse_payload(e, id, s) {
        Ok((first, rest)) => {
            match parse_items(e, id, rest, (n - 1) as nat, at + 1) {
                Ok((others, left)) => {
                    assert(front + (seq![first] + others) =~= front.push(first) + others);
                },
                Err(_) => {},
            }
        },
        Err(_) => {},
    }
}

/// Reading the entries of a compound takes at least one byte.
pub proof fn lemma_entries_shrink(e: Encoding, s: Seq<u8>, so_far: Entries)
    ensures
        parse_entries(e, s, so_far) matches Ok((_, rest)) ==> rest.len() < s.len(),
    decreases s.len(), 1nat, 0nat,
{
    match parse_u8(s) {
        Ok((id, after_id)) => {
            if id != 0 {
                lemma_string_shrinks(e, after_id);
                match parse_string(e, after_id) {
                    Ok((name, after_name)) => {
                        lemma_payload_shrinks(e, id, after_name);
                        match parse_payload(e, id, after_name) {
                            Ok((value, rest)) => {
                                lemma_entries_shrink(e, rest, inserted(so_far, name, value));
                            },
                            Err(_) => {},
                        }
                    },
                    Err(_) => {},
                }
            }
        },
        Err(_) => {},
    }
}

} // verus!

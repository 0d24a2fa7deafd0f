//! What holds of the wire format: what is written is read back as it was.
use crate::wire::pow128;
use crate::err::Failure;
use crate::err::PathStep;
use crate::err::ReadFault;
use crate::err::WriteFault;
use crate::format::max_seq_len;
use crate::format::i32_item;
use crate::format::i64_item;
use crate::format::i8_item;
use crate::format::lemma_numbers_shrink;
use crate::format::lemma_payload_shrinks;
use crate::format::lemma_string_shrinks;
use crate::format::parse_array;
use crate::format::parse_entries;
use crate::format::parse_fixed;
use crate::format::parse_items;
use crate::format::parse_many;
use crate::format::parse_payload;
use crate::format::parse_named_root;
use crate::format::parse_root;
use crate::format::parse_string_bytes;
use crate::format::parse_text;
use crate::format::u8_item;
use crate::format::Parsed;
use crate::model::has_key;
use crate::model::inserted;
use crate::model::Entries;
use crate::model::TagModel;
use crate::model::TextModel;
use crate::mutf8::encoded;
use crate::output::array_written;
use crate::output::entries_written;
use crate::output::entry_written;
use crate::output::lemma_items_written_stops;
use crate::output::refused;
use crate::output::too_long;
use crate::tag::compound::lemma_inserted_distinct;
use crate::output::i32_form;
use crate::output::i64_form;
use crate::output::i8_form;
use crate::output::item_written;
use crate::output::items_written;
use crate::output::joined;
use crate::output::list_id;
use crate::output::payload_written;
use crate::output::named_root_written;
use crate::output::root_written;
use crate::output::string_bytes_written;
use crate::output::text_written;
use crate::output::u8_form;
use crate::writer::forms;
use crate::writer::lemma_forms_all;
use crate::writer::lemma_forms_step;
use crate::format::parse_i16;
use crate::format::parse_i32;
use crate::format::parse_i64;
use crate::format::parse_i8;
use crate::format::parse_seq_len;
use crate::format::parse_string_len;
use crate::format::parse_u32;
use crate::format::parse_u64;
use crate::format::parse_u8;
use crate::format::parse_uvarint;
use crate::output::i16_bytes;
use crate::output::i32_bytes;
use crate::output::i64_bytes;
use crate::output::i8_bytes;
use crate::output::seq_len_bytes;
use crate::output::string_len_bytes;
use crate::output::u32_bytes;
use crate::output::u64_bytes;
use crate::wire::bytes2;
use crate::wire::bytes4;
use crate::wire::bytes8;
use crate::wire::signed;
use crate::wire::unsigned;
use crate::wire::unzigzag;
use crate::wire::uvarint_bytes;
use crate::wire::value2;
use crate::wire::value4;
use crate::wire::value8;
use crate::wire::zigzag;
use crate::wire::Encoding;
use vstd::prelude::*;

verus! {

/// A fixed-width number is read back from its bytes, in either byte order.
pub proof fn lemma_fixed_round_trip(big: bool, u: int, rest: Seq<u8>)
    ensures
        0 <= u < 0x1_0000 ==> parse_fixed(big, 2, bytes2(big, u) + rest) == Ok::<
            _,
            Failure<ReadFault>,
        >((u, rest)),
        0 <= u < 0x1_0000_0000 ==> parse_fixed(big, 4, bytes4(big, u) + rest) == Ok::<
            _,
            Failure<ReadFault>,
        >((u, rest)),
        0 <= u < 0x1_0000_0000_0000_0000 ==> parse_fixed(big, 8, bytes8(big, u) + rest) == Ok::<
            _,
            Failure<ReadFault>,
        >((u, rest)),
{
    reveal(bytes2);
    reveal(bytes4);
    reveal(bytes8);
    reveal(value2);
    reveal(value4);
    reveal(value8);
    if 0 <= u < 0x1_0000 {
        let s = bytes2(big, u) + rest;
        assert(s.skip(2) =~= rest);
        assert(value2(big, s) == u);
    }
    if 0 <= u < 0x1_0000_0000 {
        let s = bytes4(big, u) + rest;
        assert(s.skip(4) =~= rest);
        assert(value4(big, s) == u);
    }
    if 0 <= u < 0x1_0000_0000_0000_0000 {
        let s = bytes8(big, u) + rest;
        assert(s.skip(8) =~= rest);
        assert(value8(big, s) == u);
    }
}

/// A variable-length number is read back from its bytes, where the limit on
/// the number of bytes admits it.
pub proof fn lemma_uvarint_round_trip(u: nat, limit: nat, rest: Seq<u8>)
    requires
        limit >= 1,
        u < pow128(limit),
    ensures
        parse_uvarint(uvarint_bytes(u) + rest, limit) == Ok::<_, Failure<ReadFault>>((u, rest)),
    decreases limit,
{
    let s = uvarint_bytes(u) + rest;
    if u < 128 {
        assert(s.skip(1) =~= rest);
    } else {
        if limit == 1 {
            reveal_with_fuel(pow128, 2);
        }
        lemma_uvarint_round_trip(u / 128, (limit - 1) as nat, rest);
        assert(s.skip(1) =~= uvarint_bytes(u / 128) + rest);
    }
}

/// The zig-zag mapping is undone by its inverse.
pub proof fn lemma_zigzag_round_trip(x: int)
    ensures
        unzigzag(zigzag(x)) == x,
        -0x8000_0000 <= x < 0x8000_0000 ==> zigzag(x) < 0x1_0000_0000,
        -0x8000_0000_0000_0000 <= x < 0x8000_0000_0000_0000 ==> zigzag(x)
            < 0x1_0000_0000_0000_0000,
{
}

/// Five bytes of seven bits hold 32 bits, ten hold 64.
pub proof fn lemma_pow128_values()
    ensures
        pow128(5) == 0x8_0000_0000,
        pow128(10) == 0x40_0000_0000_0000_0000,
{
    reveal_with_fuel(pow128, 11);
}

/// A byte is read back as it was written.
pub proof fn lemma_u8_round_trip(x: u8, rest: Seq<u8>)
    ensures
        parse_u8(seq![x] + rest) == Ok::<_, Failure<ReadFault>>((x, rest)),
{
    assert((seq![x] + rest).skip(1) =~= rest);
}

/// An 8-bit signed integer is read back as it was written.
pub proof fn lemma_i8_round_trip(x: i8, rest: Seq<u8>)
    ensures
        parse_i8(i8_bytes(x) + rest) == Ok::<_, Failure<ReadFault>>((x, rest)),
{
    assert((i8_bytes(x) + rest).skip(1) =~= rest);
}

/// A 16-bit signed integer is read back as it was written, in every encoding.
pub proof fn lemma_i16_round_trip(e: Encoding, x: i16, rest: Seq<u8>)
    ensures
        parse_i16(e, i16_bytes(e, x) + rest) == Ok::<_, Failure<ReadFault>>((x, rest)),
{
    lemma_fixed_round_trip(e.big(), unsigned(x as int, 0x1_0000), rest);
}

/// A 32-bit signed integer is read back as it was written, in every
/// encoding. In the network encoding this is the law of the zig-zag
/// variable-length form: decoding what encoding gave for `x` gives `x`.
pub proof fn lemma_i32_round_trip(e: Encoding, x: i32, rest: Seq<u8>)
    ensures
        parse_i32(e, i32_bytes(e, x) + rest) == Ok::<_, Failure<ReadFault>>((x, rest)),
{
    lemma_pow128_values();
    lemma_zigzag_round_trip(x as int);
    if e is Network {
        lemma_uvarint_round_trip(zigzag(x as int), 5, rest);
    } else {
        lemma_fixed_round_trip(e.big(), unsigned(x as int, 0x1_0000_0000), rest);
    }
}

/// A 64-bit signed integer is read back as it was written, in every
/// encoding. In the network encoding this is the law of the zig-zag
/// variable-length form: decoding what encoding gave for `x` gives `x`.
pub proof fn lemma_i64_round_trip(e: Encoding, x: i64, rest: Seq<u8>)
    ensures
        parse_i64(e, i64_bytes(e, x) + rest) == Ok::<_, Failure<ReadFault>>((x, rest)),
{
    lemma_pow128_values();
    lemma_zigzag_round_trip(x as int);
    if e is Network {
        lemma_uvarint_round_trip(zigzag(x as int), 10, rest);
    } else {
        lemma_fixed_round_trip(e.big(), unsigned(x as int, 0x1_0000_0000_0000_0000), rest);
    }
}

/// The bit pattern of a 32-bit floating-point number is read back as it was
/// written, in every encoding.
pub proof fn lemma_u32_round_trip(e: Encoding, bits: u32, rest: Seq<u8>)
    ensures
        parse_u32(e, u32_bytes(e, bits) + rest) == Ok::<_, Failure<ReadFault>>((bits, rest)),
{
    lemma_fixed_round_trip(e.big(), bits as int, rest);
}

/// The bit pattern of a 64-bit floating-point number is read back as it was
/// written, in every encoding.
pub proof fn lemma_u64_round_trip(e: Encoding, bits: u64, rest: Seq<u8>)
    ensures
        parse_u64(e, u64_bytes(e, bits) + rest) == Ok::<_, Failure<ReadFault>>((bits, rest)),
{
    lemma_fixed_round_trip(e.big(), bits as int, rest);
}

/// A length is read back from its bytes.
pub proof fn lemma_lengths_round_trip(e: Encoding, n: nat, rest: Seq<u8>)
    ensures
        n <= 0x7fff_ffff ==> parse_seq_len(e, seq_len_bytes(e, n as int) + rest) == Ok::<
            _,
            Failure<ReadFault>,
        >((n as usize, rest)),
        n <= 0x7fff ==> parse_string_len(e, string_len_bytes(e, n as int) + rest) == Ok::<
            _,
            Failure<ReadFault>,
        >((n as usize, rest)),
{
    lemma_pow128_values();
    if n <= 0x7fff_ffff {
        lemma_fixed_round_trip(e.big(), n as int, rest);
    }
    if n <= 0x7fff {
        if e is Network {
            lemma_uvarint_round_trip(n, 5, rest);
        } else {
            lemma_fixed_round_trip(e.big(), n as int, rest);
        }
    }
}

/// Reading one more item after `n` items is reading `n + 1` items.
pub proof fn lemma_parse_many_snoc<T>(
    item: spec_fn(Seq<u8>) -> Parsed<T>,
    s: Seq<u8>,
    n: nat,
    at: nat,
)
    ensures
        parse_many(item, s, n, at) matches Ok((items, rest)) ==> (item(rest) matches Ok(
            (last, left),
        ) ==> parse_many(item, s, n + 1, at) == Ok::<_, Failure<ReadFault>>(
            (items.push(last), left),
        )),
    decreases n,
{
    if let Ok((items, rest)) = parse_many(item, s, n, at) {
        if let Ok((last, left)) = item(rest) {
            if n == 0 {
                assert(parse_many(item, left, 0, at + 1) == Ok::<_, Failure<ReadFault>>(
                    (Seq::<T>::empty(), left),
                ));
                assert(seq![last] + Seq::<T>::empty() =~= items.push(last));
            } else {
                if let Ok((first, after)) = item(s) {
                    lemma_parse_many_snoc(item, after, (n - 1) as nat, at + 1);
                    if let Ok((others, _)) = parse_many(item, after, (n - 1) as nat, at + 1) {
                        assert(seq![first] + others.push(last) =~= items.push(last));
                    }
                }
            }
        }
    }
}

/// Whether `item` reads back what `form` writes, whatever comes after.
pub open spec fn inverse<T>(form: spec_fn(T) -> Seq<u8>, item: spec_fn(Seq<u8>) -> Parsed<T>) -> bool {
    forall|x: T, rest: Seq<u8>| #[trigger]
        item(form(x) + rest) == Ok::<_, Failure<ReadFault>>((x, rest))
}

/// The first `upto` items of an array are read back from their written forms.
pub proof fn lemma_many_round_trip<T>(
    items: Seq<T>,
    form: spec_fn(T) -> Seq<u8>,
    item: spec_fn(Seq<u8>) -> Parsed<T>,
    upto: nat,
    rest: Seq<u8>,
)
    requires
        upto <= items.len(),
        inverse(form, item),
    ensures
        parse_many(item, forms(items, form, upto as int) + rest, upto, 0) == Ok::<
            _,
            Failure<ReadFault>,
        >((items.take(upto as int), rest)),
    decreases upto,
{
    if upto == 0 {
        lemma_forms_all(items, form);
        assert(forms(items, form, 0) + rest =~= rest);
        assert(items.take(0) =~= Seq::<T>::empty());
    } else {
        let last = items[upto - 1];
        let after = form(last) + rest;
        lemma_forms_step(items, form, upto - 1);
        lemma_many_round_trip(items, form, item, (upto - 1) as nat, after);
        assert(forms(items, form, upto as int) + rest =~= forms(items, form, upto - 1) + after);
        assert(item(form(last) + rest) == Ok::<_, Failure<ReadFault>>((last, rest)));
        lemma_parse_many_snoc(
            item,
            forms(items, form, upto as int) + rest,
            (upto - 1) as nat,
            0,
        );
        assert(items.take(upto - 1).push(last) =~= items.take(upto as int));
    }
}

/// An array that can be written is read back as it was.
pub proof fn lemma_array_round_trip<T>(
    e: Encoding,
    items: Seq<T>,
    form: spec_fn(T) -> Seq<u8>,
    item: spec_fn(Seq<u8>) -> Parsed<T>,
    rest: Seq<u8>,
)
    requires
        array_written(e, items, form).failure is None,
        inverse(form, item),
    ensures
        parse_array(e, item, array_written(e, items, form).bytes + rest) == Ok::<
            _,
            Failure<ReadFault>,
        >((items, rest)),
{
    let body = joined(items.map_values(form));
    lemma_forms_all(items, form);
    lemma_many_round_trip(items, form, item, items.len(), rest);
    lemma_lengths_round_trip(e, items.len(), body + rest);
    assert(array_written(e, items, form).bytes + rest =~= seq_len_bytes(e, items.len() as int) + (
    body + rest));
    assert(items.take(items.len() as int) =~= items);
}

/// The ways in which the items of the arrays are written and read are
/// inverse to each other.
pub proof fn lemma_items_inverse(e: Encoding)
    ensures
        inverse(u8_form(), u8_item()),
        inverse(i8_form(), i8_item()),
        inverse(i32_form(e), i32_item(e)),
        inverse(i64_form(e), i64_item(e)),
{
    assert forall|x: u8, rest: Seq<u8>| #[trigger]
        u8_item()(u8_form()(x) + rest) == Ok::<_, Failure<ReadFault>>((x, rest)) by {
        lemma_u8_round_trip(x, rest);
    }
    assert forall|x: i8, rest: Seq<u8>| #[trigger]
        i8_item()(i8_form()(x) + rest) == Ok::<_, Failure<ReadFault>>((x, rest)) by {
        lemma_i8_round_trip(x, rest);
    }
    assert forall|x: i32, rest: Seq<u8>| #[trigger]
        i32_item(e)(i32_form(e)(x) + rest) == Ok::<_, Failure<ReadFault>>((x, rest)) by {
        lemma_i32_round_trip(e, x, rest);
    }
    assert forall|x: i64, rest: Seq<u8>| #[trigger]
        i64_item(e)(i64_form(e)(x) + rest) == Ok::<_, Failure<ReadFault>>((x, rest)) by {
        lemma_i64_round_trip(e, x, rest);
    }
}

/// Bytes are read back one by one as they stand.
pub proof fn lemma_bytes_round_trip(body: Seq<u8>, at: nat, rest: Seq<u8>)
    ensures
        parse_many(u8_item(), body + rest, body.len(), at) == Ok::<_, Failure<ReadFault>>(
            (body, rest),
        ),
    decreases body.len(),
{
    if body.len() == 0 {
        assert(body + rest =~= rest);
        assert(body =~= Seq::<u8>::empty());
    } else {
        lemma_bytes_round_trip(body.skip(1), at + 1, rest);
        assert((body + rest).skip(1) =~= body.skip(1) + rest);
        assert(seq![body[0]] + body.skip(1) =~= body);
    }
}

/// The bytes of a string that can be written are read back as they were.
pub proof fn lemma_string_bytes_round_trip(e: Encoding, body: Seq<u8>, rest: Seq<u8>)
    requires
        string_bytes_written(e, body).failure is None,
    ensures
        parse_string_bytes(e, string_bytes_written(e, body).bytes + rest) == Ok::<
            _,
            Failure<ReadFault>,
        >((body, rest)),
{
    lemma_lengths_round_trip(e, body.len(), body + rest);
    lemma_bytes_round_trip(body, 0, rest);
    assert(string_bytes_written(e, body).bytes + rest =~= string_len_bytes(e, body.len() as int)
        + (body + rest));
}

/// **String fidelity.** A string held as bytes that are not Modified UTF-8
/// is read back as those bytes; a string held as text that comes back from
/// its Modified UTF-8 bytes is read back as that text. In both cases the
/// string has to be one that can be written.
pub proof fn lemma_text_round_trip(e: Encoding, text: TextModel, rest: Seq<u8>)
    requires
        text_written(e, text).failure is None,
        TagModel::String(text).faithful(),
    ensures
        parse_text(e, text_written(e, text).bytes + rest) == Ok::<_, Failure<ReadFault>>(
            (text, rest),
        ),
{
    match text {
        TextModel::Utf8(t) => lemma_string_bytes_round_trip(e, encoded(t), rest),
        TextModel::Bytes(b) => lemma_string_bytes_round_trip(e, b, rest),
    }
}

/// Reading one more payload after `n` payloads is reading `n + 1` payloads.
pub proof fn lemma_parse_items_snoc(e: Encoding, id: u8, s: Seq<u8>, n: nat, at: nat)
    ensures
        parse_items(e, id, s, n, at) matches Ok((items, rest)) ==> (parse_payload(e, id, rest)
            matches Ok((last, left)) ==> parse_items(e, id, s, n + 1, at) == Ok::<
            _,
            Failure<ReadFault>,
        >((items.push(last), left))),
    decreases n,
{
    if let Ok((items, rest)) = parse_items(e, id, s, n, at) {
        if let Ok((last, left)) = parse_payload(e, id, rest) {
            lemma_payload_shrinks(e, id, rest);
            if n == 0 {
                assert(parse_items(e, id, left, 0, at + 1) == Ok::<_, Failure<ReadFault>>(
                    (Seq::<TagModel>::empty(), left),
                ));
                assert(seq![last] + Seq::<TagModel>::empty() =~= items.push(last));
            } else {
                lemma_payload_shrinks(e, id, s);
                if let Ok((first, after)) = parse_payload(e, id, s) {
                    lemma_parse_items_snoc(e, id, after, (n - 1) as nat, at + 1);
                    if let Ok((others, _)) = parse_items(e, id, after, (n - 1) as nat, at + 1) {
                        assert(seq![first] + others.push(last) =~= items.push(last));
                    }
                }
            }
        }
    }
}

/// **Round trip of a payload.** A tag that can be written and is
/// [faithful](TagModel::faithful) is read back as it was from what was written
/// for it, in every encoding, and what came after it is left over.
pub proof fn lemma_payload_round_trip(e: Encoding, v: TagModel, rest: Seq<u8>)
    requires
        payload_written(e, v).failure is None,
        v.faithful(),
    ensures
        parse_payload(e, v.id(), payload_written(e, v).bytes + rest) == Ok::<
            _,
            Failure<ReadFault>,
        >((v, rest)),
    decreases v, 0nat,
{
    match v {
        TagModel::Byte(x) => lemma_i8_round_trip(x, rest),
        TagModel::Short(x) => lemma_i16_round_trip(e, x, rest),
        TagModel::Int(x) => lemma_i32_round_trip(e, x, rest),
        TagModel::Long(x) => lemma_i64_round_trip(e, x, rest),
        TagModel::Float(x) => lemma_u32_round_trip(e, x, rest),
        TagModel::Double(x) => lemma_u64_round_trip(e, x, rest),
        TagModel::String(text) => lemma_text_round_trip(e, text, rest),
        TagModel::ByteArray(items) => {
            lemma_items_inverse(e);
            lemma_array_round_trip(e, items, i8_form(), i8_item(), rest);
        },
        TagModel::IntArray(items) => {
            lemma_items_inverse(e);
            lemma_array_round_trip(e, items, i32_form(e), i32_item(e), rest);
        },
        TagModel::LongArray(items) => {
            lemma_items_inverse(e);
            lemma_array_round_trip(e, items, i64_form(e), i64_item(e), rest);
        },
        TagModel::List(items) => {
            lemma_items_round_trip(e, items, items.len(), rest);
            lemma_list_frame(e, items, rest);
        },
        TagModel::Compound(entries) => {
            lemma_entries_round_trip(e, entries, entries.len(), seq![0u8] + rest);
            lemma_compound_frame(e, entries, rest);
        },
    }
}

/// A list is read back where its elements are.
pub proof fn lemma_list_frame(e: Encoding, items: Seq<TagModel>, rest: Seq<u8>)
    requires
        payload_written(e, TagModel::List(items)).failure is None,
        parse_items(
            e,
            list_id(items),
            items_written(e, items, items.len()).bytes + rest,
            items.len(),
            0,
        ) == Ok::<_, Failure<ReadFault>>((items.take(items.len() as int), rest)),
    ensures
        parse_payload(e, 9, payload_written(e, TagModel::List(items)).bytes + rest) == Ok::<
            _,
            Failure<ReadFault>,
        >((TagModel::List(items), rest)),
{
    let n = items.len();
    let body = items_written(e, items, n).bytes;
    let id = list_id(items);
    let after_id = seq_len_bytes(e, n as int) + (body + rest);
    let all = payload_written(e, TagModel::List(items)).bytes + rest;
    lemma_lengths_round_trip(e, n, body + rest);
    lemma_u8_round_trip(id, after_id);
    assert(all =~= seq![id] + after_id);
    assert(items.take(n as int) =~= items);
    lemma_numbers_shrink(e, after_id);
    assert(parse_u8(all) == Ok::<_, Failure<ReadFault>>((id, after_id)));
    assert(parse_seq_len(e, after_id) == Ok::<_, Failure<ReadFault>>((n as usize, body + rest)));
}

/// A compound is read back where its entries are.
pub proof fn lemma_compound_frame(e: Encoding, entries: Entries, rest: Seq<u8>)
    requires
        payload_written(e, TagModel::Compound(entries)).failure is None,
        parse_entries(
            e,
            entries_written(e, entries, entries.len()).bytes + (seq![0u8] + rest),
            Seq::empty(),
        ) == parse_entries(e, seq![0u8] + rest, entries.take(entries.len() as int)),
    ensures
        parse_payload(e, 10, payload_written(e, TagModel::Compound(entries)).bytes + rest) == Ok::<
            _,
            Failure<ReadFault>,
        >((TagModel::Compound(entries), rest)),
{
    let n = entries.len();
    let body = entries_written(e, entries, n).bytes;
    lemma_u8_round_trip(0u8, rest);
    assert(payload_written(e, TagModel::Compound(entries)).bytes + rest =~= body + (seq![0u8]
        + rest));
    assert(entries.take(n as int) =~= entries);
}

/// Reading `n` payloads and then one more from what is left is reading
/// `n + 1` payloads.
pub proof fn lemma_items_one_more(
    e: Encoding,
    id: u8,
    head: Seq<u8>,
    part: Seq<u8>,
    rest: Seq<u8>,
    n: nat,
    read: Seq<TagModel>,
    last: TagModel,
)
    requires
        parse_items(e, id, head + (part + rest), n, 0) == Ok::<_, Failure<ReadFault>>(
            (read, part + rest),
        ),
        parse_payload(e, id, part + rest) == Ok::<_, Failure<ReadFault>>((last, rest)),
    ensures
        parse_items(e, id, (head + part) + rest, n + 1, 0) == Ok::<_, Failure<ReadFault>>(
            (read.push(last), rest),
        ),
{
    assert((head + part) + rest =~= head + (part + rest));
    lemma_parse_items_snoc(e, id, head + (part + rest), n, 0);
}

/// The first `upto` elements of a list that can be written are read back
/// from what was written for them.
pub proof fn lemma_items_round_trip(e: Encoding, items: Seq<TagModel>, upto: nat, rest: Seq<u8>)
    requires
        upto <= items.len(),
        items_written(e, items, upto).failure is None,
        forall|i: int| 0 <= i < items.len() ==> (#[trigger] items[i]).faithful(),
    ensures
        parse_items(e, list_id(items), items_written(e, items, upto).bytes + rest, upto, 0) == Ok::<
            _,
            Failure<ReadFault>,
        >((items.take(upto as int), rest)),
    decreases items, upto,
{
    if upto == 0 {
        assert(items_written(e, items, 0).bytes + rest =~= rest);
        assert(items.take(0) =~= Seq::<TagModel>::empty());
    } else {
        let last = items[upto - 1];
        let id = list_id(items);
        let before = items_written(e, items, (upto - 1) as nat);
        let part = item_written(e, items, upto - 1);
        assert(items_written(e, items, upto) == before.followed_by(part));
        assert(before.failure is None);
        assert(part.failure is None);
        assert(last.id() == id);
        assert(part.bytes == payload_written(e, last).bytes);
        assert(payload_written(e, last).failure is None);
        assert(last.faithful());
        lemma_items_round_trip(e, items, (upto - 1) as nat, part.bytes + rest);
        lemma_payload_round_trip(e, last, rest);
        lemma_items_one_more(
            e,
            id,
            before.bytes,
            part.bytes,
            rest,
            (upto - 1) as nat,
            items.take(upto - 1),
            last,
        );
        assert(items.take(upto - 1).push(last) =~= items.take(upto as int));
    }
}

/// One entry is read from what was written for it, where its name and its
/// tag are read back from theirs, and joins what has been read so far.
pub proof fn lemma_entry_read(
    e: Encoding,
    name: Seq<char>,
    value: TagModel,
    so_far: Entries,
    tail: Seq<u8>,
)
    requires
        string_bytes_written(e, encoded(name)).failure is None,
        payload_written(e, value).failure is None,
        crate::mutf8::survives(name),
        parse_payload(e, value.id(), payload_written(e, value).bytes + tail) == Ok::<
            _,
            Failure<ReadFault>,
        >((value, tail)),
    ensures
        parse_entries(
            e,
            seq![value.id()] + string_bytes_written(e, encoded(name)).bytes + payload_written(
                e,
                value,
            ).bytes + tail,
            so_far,
        ) == parse_entries(e, tail, inserted(so_far, name, value)),
{
    let name_part = string_bytes_written(e, encoded(name)).bytes;
    let value_part = payload_written(e, value).bytes;
    let all = seq![value.id()] + name_part + value_part + tail;
    let after_name = value_part + tail;
    let after_id = name_part + after_name;
    assert(all =~= seq![value.id()] + after_id);
    lemma_u8_round_trip(value.id(), after_id);
    lemma_string_bytes_round_trip(e, encoded(name), after_name);
    lemma_string_shrinks(e, after_id);
    lemma_payload_shrinks(e, value.id(), after_name);
    assert(parse_u8(all) == Ok::<_, Failure<ReadFault>>((value.id(), after_id)));
    assert(crate::format::parse_string(e, after_id) == Ok::<_, Failure<ReadFault>>(
        (name, after_name),
    ));
}

/// After the first `upto` entries of a compound that can be written have been
/// read from what was written for them, they are what has been read so far.
pub proof fn lemma_entries_round_trip(e: Encoding, entries: Entries, upto: nat, tail: Seq<u8>)
    requires
        upto <= entries.len(),
        entries_written(e, entries, upto).failure is None,
        TagModel::Compound(entries).faithful(),
    ensures
        parse_entries(e, entries_written(e, entries, upto).bytes + tail, Seq::empty())
            == parse_entries(e, tail, entries.take(upto as int)),
    decreases entries, upto,
{
    if upto == 0 {
        assert(entries_written(e, entries, 0).bytes + tail =~= tail);
        assert(entries.take(0) =~= Entries::empty());
    } else {
        let name = entries[upto - 1].0;
        let value = entries[upto - 1].1;
        let before = entries_written(e, entries, (upto - 1) as nat);
        let part = entry_written(e, entries, upto - 1);
        assert(entries_written(e, entries, upto) == before.followed_by(part));
        let after = part.bytes + tail;
        lemma_entries_round_trip(e, entries, (upto - 1) as nat, after);
        assert(entries_written(e, entries, upto).bytes + tail =~= before.bytes + after);
        lemma_payload_round_trip(e, value, tail);
        let so_far = entries.take(upto - 1);
        lemma_entry_read(e, name, value, so_far, tail);
        assert(after =~= seq![value.id()] + string_bytes_written(e, encoded(name)).bytes
            + payload_written(e, value).bytes + tail);
        assert(!has_key(so_far, name)) by {
            if has_key(so_far, name) {
                let j = choose|j: int| 0 <= j < so_far.len() && (#[trigger] so_far[j]).0 == name;
                assert(entries[j].0 == name);
            }
        }
        assert(inserted(so_far, name, value) =~= entries.take(upto as int));
    }
}

/// **Round trip.** For every tag and every encoding: where the tag is
/// [writable](TagModel::writable) and [faithful](TagModel::faithful), it is
/// written without a failure, and reading a root from what was written for it
/// gives the tag back and leaves over what came after.
pub proof fn lemma_round_trip(e: Encoding, v: TagModel, rest: Seq<u8>)
    requires
        v.writable(),
        v.faithful(),
    ensures
        root_written(e, v).failure is None,
        parse_root(e, root_written(e, v).bytes + rest) == Ok::<_, Failure<ReadFault>>((v, rest)),
{
    lemma_writable(e, v);
    let payload = payload_written(e, v).bytes;
    let after_id = string_len_bytes(e, 0) + (payload + rest);
    lemma_u8_round_trip(v.id(), after_id);
    lemma_string_bytes_round_trip(e, Seq::empty(), payload + rest);
    lemma_payload_round_trip(e, v, rest);
    assert(root_written(e, v).bytes + rest =~= seq![v.id()] + after_id);
    assert(string_bytes_written(e, Seq::empty()).bytes + (payload + rest) =~= after_id);
}

/// **Round trip of a named root.** For every name, tag and encoding: where
/// the name has no more than [`i16::MAX`] bytes in Modified UTF-8 and comes
/// back from them, and the tag is [writable](TagModel::writable) and
/// [faithful](TagModel::faithful), the root is written without a failure, and
/// reading a named root from what was written gives the name and the tag
/// back and leaves over what came after.
pub proof fn lemma_named_round_trip(e: Encoding, name: Seq<char>, v: TagModel, rest: Seq<u8>)
    requires
        encoded(name).len() <= 0x7fff,
        crate::mutf8::survives(name),
        v.writable(),
        v.faithful(),
    ensures
        named_root_written(e, name, v).failure is None,
        parse_named_root(e, named_root_written(e, name, v).bytes + rest) == Ok::<
            _,
            Failure<ReadFault>,
        >(((name, v), rest)),
{
    lemma_writable(e, v);
    let payload = payload_written(e, v).bytes;
    let name_part = string_bytes_written(e, encoded(name)).bytes;
    let after_id = name_part + (payload + rest);
    lemma_u8_round_trip(v.id(), after_id);
    lemma_string_bytes_round_trip(e, encoded(name), payload + rest);
    lemma_payload_round_trip(e, v, rest);
    assert(named_root_written(e, name, v).bytes + rest =~= seq![v.id()] + after_id);
}

/// **Encoding independence.** For every tag that is
/// [writable](TagModel::writable) and [faithful](TagModel::faithful): writing
/// it and reading it back gives the same tag, the tag itself, in each of the
/// three encodings.
pub proof fn lemma_encoding_independence(v: TagModel)
    requires
        v.writable(),
        v.faithful(),
    ensures
        parse_root(Encoding::Big, root_written(Encoding::Big, v).bytes) == Ok::<
            _,
            Failure<ReadFault>,
        >((v, Seq::<u8>::empty())),
        parse_root(Encoding::Little, root_written(Encoding::Little, v).bytes) == parse_root(
            Encoding::Big,
            root_written(Encoding::Big, v).bytes,
        ),
        parse_root(Encoding::Network, root_written(Encoding::Network, v).bytes) == parse_root(
            Encoding::Big,
            root_written(Encoding::Big, v).bytes,
        ),
{
    lemma_round_trip(Encoding::Big, v, Seq::empty());
    lemma_round_trip(Encoding::Little, v, Seq::empty());
    lemma_round_trip(Encoding::Network, v, Seq::empty());
    assert(root_written(Encoding::Big, v).bytes + Seq::<u8>::empty() =~= root_written(
        Encoding::Big,
        v,
    ).bytes);
    assert(root_written(Encoding::Little, v).bytes + Seq::<u8>::empty() =~= root_written(
        Encoding::Little,
        v,
    ).bytes);
    assert(root_written(Encoding::Network, v).bytes + Seq::<u8>::empty() =~= root_written(
        Encoding::Network,
        v,
    ).bytes);
}

/// The first `upto` elements of a list are written without a failure where
/// each is of the type of the first and can be written.
pub proof fn lemma_items_written_ok(e: Encoding, items: Seq<TagModel>, upto: nat)
    requires
        upto <= items.len(),
        forall|j: int|
            0 <= j < upto ==> (#[trigger] items[j]).id() == items[0].id() && payload_written(
                e,
                items[j],
            ).failure is None,
    ensures
        items_written(e, items, upto).failure is None,
    decreases upto,
{
    if upto > 0 {
        lemma_items_written_ok(e, items, (upto - 1) as nat);
        assert(items[upto - 1].id() == items[0].id());
        assert(items_written(e, items, upto) == items_written(
            e,
            items,
            (upto - 1) as nat,
        ).followed_by(item_written(e, items, upto - 1)));
    }
}

/// **List heterogeneity rejection.** Writing a list fails at the first
/// element whose type is not that of the first element, with
/// [`WriteFault::UnexpectedTag`] of the two types and the path `[i]` of that
/// element, where the list is not too long and the elements before it can be
/// written.
pub proof fn lemma_list_heterogeneity(e: Encoding, items: Seq<TagModel>, i: nat)
    requires
        items.len() <= max_seq_len(),
        i < items.len(),
        items[i as int].id() != items[0].id(),
        forall|j: int|
            0 <= j < i ==> (#[trigger] items[j]).id() == items[0].id() && payload_written(
                e,
                items[j],
            ).failure is None,
    ensures
        payload_written(e, TagModel::List(items)).failure == Some(
            Failure {
                fault: WriteFault::UnexpectedTag(items[0].tag_type(), items[i as int].tag_type()),
                path: seq![PathStep::Element(i as usize)],
            },
        ),
{
    lemma_items_written_ok(e, items, i);
    let part = item_written(e, items, i as int);
    assert(items_written(e, items, i + 1) == items_written(e, items, i).followed_by(part));
    assert(seq![PathStep::Element(i as usize)] + Seq::<PathStep>::empty() =~= seq![
        PathStep::Element(i as usize),
    ]);
    lemma_items_written_stops(e, items, i + 1, items.len());
}

/// **Length bounds.** Writing a string of more than [`i16::MAX`] bytes, which
/// for text are those of its Modified UTF-8 form, fails with
/// [`WriteFault::SeqLengthViolation`] of that bound and the number of bytes;
/// writing an array or a list of more than [`i32::MAX`] elements fails with
/// that bound and the number of elements. Nothing is written, and the failure
/// is at the root of what was to be written.
pub proof fn lemma_length_bounds(e: Encoding, v: TagModel)
    ensures
        match v {
            TagModel::String(TextModel::Utf8(text)) => encoded(text).len() > 0x7fff
                ==> payload_written(e, v) == refused(too_long(0x7fff, encoded(text).len())),
            TagModel::String(TextModel::Bytes(bytes)) => bytes.len() > 0x7fff ==> payload_written(
                e,
                v,
            ) == refused(too_long(0x7fff, bytes.len())),
            TagModel::ByteArray(items) => items.len() > 0x7fff_ffff ==> payload_written(e, v)
                == refused(too_long(0x7fff_ffff, items.len())),
            TagModel::IntArray(items) => items.len() > 0x7fff_ffff ==> payload_written(e, v)
                == refused(too_long(0x7fff_ffff, items.len())),
            TagModel::LongArray(items) => items.len() > 0x7fff_ffff ==> payload_written(e, v)
                == refused(too_long(0x7fff_ffff, items.len())),
            TagModel::List(items) => items.len() > 0x7fff_ffff ==> payload_written(e, v)
                == refused(too_long(0x7fff_ffff, items.len())),
            _ => true,
        },
{
}

/// Putting a well-formed tag among well-formed entries leaves them well-formed.
pub proof fn lemma_inserted_wf(entries: Entries, key: Seq<char>, value: TagModel)
    requires
        TagModel::Compound(entries).wf(),
        value.wf(),
    ensures
        TagModel::Compound(inserted(entries, key, value)).wf(),
{
    lemma_inserted_distinct(entries, key, value);
    let after = inserted(entries, key, value);
    if has_key(entries, key) {
        let at = crate::model::position(entries, key);
        assert(0 <= at < entries.len() && entries[at].0 == key && forall|j: int|
            0 <= j < at ==> (#[trigger] entries[j]).0 != key);
        assert forall|i: int| 0 <= i < after.len() implies (#[trigger] after[i]).1.wf() by {
            if i != at {
                assert(after[i] == entries[i]);
            }
        }
    } else {
        assert forall|i: int| 0 <= i < after.len() implies (#[trigger] after[i]).1.wf() by {
            if i < entries.len() {
                assert(after[i] == entries[i]);
            }
        }
    }
}

/// **Names are unique in what is read.** Whatever payload is read, no
/// compound in it holds a name twice.
pub proof fn lemma_parsed_wf(e: Encoding, id: u8, s: Seq<u8>)
    ensures
        parse_payload(e, id, s) matches Ok((v, _)) ==> v.wf(),
    decreases s.len(), 2nat, 0nat,
{
    if id == 9 {
        if let Ok((item_id, after_id)) = parse_u8(s) {
            if let Ok((n, after_len)) = parse_seq_len(e, after_id) {
                lemma_numbers_shrink(e, after_id);
                lemma_parsed_items_wf(e, item_id, after_len, n as nat, 0);
            }
        }
    } else if id == 10 {
        lemma_parsed_entries_wf(e, s, Seq::empty());
    }
}

/// Whatever payloads of a list are read, no compound in them holds a name twice.
pub proof fn lemma_parsed_items_wf(e: Encoding, id: u8, s: Seq<u8>, n: nat, at: nat)
    ensures
        parse_items(e, id, s, n, at) matches Ok((items, _)) ==> (forall|i: int|
            0 <= i < items.len() ==> (#[trigger] items[i]).wf()),
    decreases s.len(), 3nat, n,
{
    if n > 0 {
        lemma_parsed_wf(e, id, s);
        lemma_payload_shrinks(e, id, s);
        if let Ok((first, rest)) = parse_payload(e, id, s) {
            lemma_parsed_items_wf(e, id, rest, (n - 1) as nat, at + 1);
        }
    }
}

/// Whatever entries are read into well-formed ones, the outcome is well-formed.
pub proof fn lemma_parsed_entries_wf(e: Encoding, s: Seq<u8>, so_far: Entries)
    requires
        TagModel::Compound(so_far).wf(),
    ensures
        parse_entries(e, s, so_far) matches Ok((entries, _)) ==> TagModel::Compound(entries).wf(),
    decreases s.len(), 1nat, 0nat,
{
    if let Ok((id, after_id)) = parse_u8(s) {
        if id != 0 {
            lemma_string_shrinks(e, after_id);
            if let Ok((name, after_name)) = crate::format::parse_string(e, after_id) {
                lemma_payload_shrinks(e, id, after_name);
                lemma_parsed_wf(e, id, after_name);
                if let Ok((value, rest)) = parse_payload(e, id, after_name) {
                    lemma_inserted_wf(so_far, name, value);
                    lemma_parsed_entries_wf(e, rest, inserted(so_far, name, value));
                }
            }
        }
    }
}

/// The first `upto` elements of a list are written without a failure exactly
/// where each is of the type of the first and can be written.
pub proof fn lemma_items_writable(e: Encoding, items: Seq<TagModel>, upto: nat)
    requires
        upto <= items.len(),
    ensures
        items_written(e, items, upto).failure is None <==> (forall|i: int|
            0 <= i < upto ==> (#[trigger] items[i]).id() == items[0].id() && items[i].writable()),
    decreases items, upto,
{
    if upto > 0 {
        lemma_items_writable(e, items, (upto - 1) as nat);
        lemma_writable(e, items[upto - 1]);
        assert(items_written(e, items, upto) == items_written(
            e,
            items,
            (upto - 1) as nat,
        ).followed_by(item_written(e, items, upto - 1)));
        if items_written(e, items, upto).failure is None {
            assert forall|i: int| 0 <= i < upto implies (#[trigger] items[i]).id() == items[0].id()
                && items[i].writable() by {
                if i < upto - 1 {
                } else {
                    assert(i == upto - 1);
                }
            }
        } else {
            if items_written(e, items, (upto - 1) as nat).failure is None {
                assert(!(items[upto - 1].id() == items[0].id() && items[upto - 1].writable()));
            }
        }
    }
}

/// The first `upto` entries of a compound are written without a failure
/// exactly where the name of each is not too long and its tag can be written.
pub proof fn lemma_entries_writable(e: Encoding, entries: Entries, upto: nat)
    requires
        upto <= entries.len(),
    ensures
        entries_written(e, entries, upto).failure is None <==> (forall|i: int|
            0 <= i < upto ==> encoded((#[trigger] entries[i]).0).len() <= 0x7fff
                && entries[i].1.writable()),
    decreases entries, upto,
{
    if upto > 0 {
        lemma_entries_writable(e, entries, (upto - 1) as nat);
        lemma_writable(e, entries[upto - 1].1);
        assert(entries_written(e, entries, upto) == entries_written(
            e,
            entries,
            (upto - 1) as nat,
        ).followed_by(entry_written(e, entries, upto - 1)));
        if entries_written(e, entries, upto).failure is None {
            assert forall|i: int| 0 <= i < upto implies encoded((#[trigger] entries[i]).0).len()
                <= 0x7fff && entries[i].1.writable() by {
                if i < upto - 1 {
                } else {
                    assert(i == upto - 1);
                }
            }
        } else {
            if entries_written(e, entries, (upto - 1) as nat).failure is None {
                assert(!(encoded(entries[upto - 1].0).len() <= 0x7fff
                    && entries[upto - 1].1.writable()));
            }
        }
    }
}

/// **When writing succeeds.** In every encoding, a tag is written without a
/// failure exactly where it is [writable](TagModel::writable).
pub proof fn lemma_writable(e: Encoding, v: TagModel)
    ensures
        payload_written(e, v).failure is None <==> v.writable(),
        root_written(e, v).failure is None <==> v.writable(),
    decreases v, 0nat,
{
    match v {
        TagModel::List(items) => {
            lemma_items_writable(e, items, items.len());
        },
        TagModel::Compound(entries) => {
            lemma_entries_writable(e, entries, entries.len());
        },
        _ => {},
    }
}

/// What is read under the byte that names a type is of that type.
pub proof fn lemma_parsed_type(e: Encoding, id: u8, s: Seq<u8>)
    ensures
        parse_payload(e, id, s) matches Ok((v, _)) ==> v.id() == id,
{
}

/// **Lists are of one type in what is read.** Whatever payload is read, every
/// list in it holds tags of one type.
pub proof fn lemma_parsed_homogeneous(e: Encoding, id: u8, s: Seq<u8>)
    ensures
        parse_payload(e, id, s) matches Ok((v, _)) ==> v.homogeneous(),
    decreases s.len(), 2nat, 0nat,
{
    if id == 9 {
        if let Ok((item_id, after_id)) = parse_u8(s) {
            if let Ok((n, after_len)) = parse_seq_len(e, after_id) {
                lemma_numbers_shrink(e, after_id);
                lemma_parsed_items_homogeneous(e, item_id, after_len, n as nat, 0);
            }
        }
    } else if id == 10 {
        lemma_parsed_entries_homogeneous(e, s, Seq::empty());
    }
}

/// Whatever payloads of a list are read, they are of the type asked for, and
/// every list in them holds tags of one type.
pub proof fn lemma_parsed_items_homogeneous(e: Encoding, id: u8, s: Seq<u8>, n: nat, at: nat)
    ensures
        parse_items(e, id, s, n, at) matches Ok((items, _)) ==> (forall|i: int|
            0 <= i < items.len() ==> (#[trigger] items[i]).id() == id && items[i].homogeneous()),
    decreases s.len(), 3nat, n,
{
    if n > 0 {
        lemma_parsed_homogeneous(e, id, s);
        lemma_parsed_type(e, id, s);
        lemma_payload_shrinks(e, id, s);
        if let Ok((first, rest)) = parse_payload(e, id, s) {
            lemma_parsed_items_homogeneous(e, id, rest, (n - 1) as nat, at + 1);
        }
    }
}

/// Whatever entries are read into ones whose lists hold tags of one type, the
/// same holds of the outcome.
pub proof fn lemma_parsed_entries_homogeneous(e: Encoding, s: Seq<u8>, so_far: Entries)
    requires
        TagModel::Compound(so_far).homogeneous(),
    ensures
        parse_entries(e, s, so_far) matches Ok((entries, _)) ==> TagModel::Compound(
            entries,
        ).homogeneous(),
    decreases s.len(), 1nat, 0nat,
{
    if let Ok((id, after_id)) = parse_u8(s) {
        if id != 0 {
            lemma_string_shrinks(e, after_id);
            if let Ok((name, after_name)) = crate::format::parse_string(e, after_id) {
                lemma_payload_shrinks(e, id, after_name);
                lemma_parsed_homogeneous(e, id, after_name);
                if let Ok((value, rest)) = parse_payload(e, id, after_name) {
                    let after = inserted(so_far, name, value);
                    assert(value.homogeneous());
                    assert(TagModel::Compound(so_far)->Compound_0 == so_far);
                    assert forall|i: int| 0 <= i < after.len() implies (
                    #[trigger] after[i]).1.homogeneous() by {
                        if has_key(so_far, name) {
                            let at = crate::model::position(so_far, name);
                            crate::tag::compound::lemma_position_is_first(so_far, name);
                            if i != at {
                                assert(after[i] == so_far[i]);
                                assert(so_far[i].1.homogeneous());
                            } else {
                                assert(after[i].1 == value);
                            }
                        } else {
                            if i < so_far.len() {
                                assert(after[i] == so_far[i]);
                                assert(so_far[i].1.homogeneous());
                            } else {
                                assert(after[i].1 == value);
                            }
                        }
                    }
                    assert(TagModel::Compound(after)->Compound_0 == after);
                    lemma_parsed_entries_homogeneous(e, rest, after);
                }
            }
        }
    }
}

} // verus!

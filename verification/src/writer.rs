//! See [`Writer`].
use crate::err::NBTError;
use crate::err::WriteError;
use crate::mutf8::encoded;
use crate::mutf8::to_java_cesu8;
use crate::output::array_written;
use crate::output::emitted;
use crate::output::i16_bytes;
use crate::output::i32_bytes;
use crate::output::i32_form;
use crate::output::i64_bytes;
use crate::output::i64_form;
use crate::output::i8_bytes;
use crate::output::i8_form;
use crate::output::joined;
use crate::output::seq_len_written;
use crate::output::string_bytes_written;
use crate::output::string_len_written;
use crate::output::u32_bytes;
use crate::output::u64_bytes;
use crate::output::u8_form;
use crate::output::Written;
use crate::wire::Encoding;
use vstd::prelude::*;

verus! {

/// The result of writing.
pub type Res = Result<(), NBTError<WriteError>>;

/// What a call that writes has done: the sink has grown by the bytes of
/// `want`, and the call has failed with the failure of `want`, if it has one.
pub open spec fn writes(r: Res, before: Seq<u8>, after: Seq<u8>, want: Written) -> bool {
    &&& after == before + want.bytes
    &&& match want.failure {
        None => r is Ok,
        Some(f) => r matches Err(err) && err@ == f,
    }
}

/// The items of an array, each in its written form, up to item `upto`.
pub open spec fn forms<T>(items: Seq<T>, item: spec_fn(T) -> Seq<u8>, upto: int) -> Seq<u8> {
    joined(items.map_values(item).take(upto))
}

/// One more item written is one more form joined.
pub proof fn lemma_forms_step<T>(items: Seq<T>, item: spec_fn(T) -> Seq<u8>, i: int)
    requires
        0 <= i < items.len(),
    ensures
        forms(items, item, i + 1) == forms(items, item, i) + item(items[i]),
        forms(items, item, 0) == Seq::<u8>::empty(),
{
    let parts = items.map_values(item);
    assert(parts.take(i + 1).drop_last() =~= parts.take(i));
    assert(parts.take(0) =~= Seq::<Seq<u8>>::empty());
}

/// All the items written are the whole array joined.
pub proof fn lemma_forms_all<T>(items: Seq<T>, item: spec_fn(T) -> Seq<u8>)
    ensures
        forms(items, item, items.len() as int) == joined(items.map_values(item)),
        forms(items, item, 0) == Seq::<u8>::empty(),
{
    let parts = items.map_values(item);
    assert(parts.take(items.len() as int) =~= parts);
    assert(parts.take(0) =~= Seq::<Seq<u8>>::empty());
}

/// How the basic values of NBT are written in one encoding.
pub trait Writer {
    /// The encoding that this writer writes.
    spec fn encoding() -> Encoding;

    /// Writes an 8-bit unsigned integer.
    fn write_u8(buf: &mut Vec<u8>, x: u8) -> (r: Res)
        ensures
            writes(r, old(buf)@, final(buf)@, emitted(seq![x])),
    ;

    /// Writes an 8-bit signed integer.
    fn write_i8(buf: &mut Vec<u8>, x: i8) -> (r: Res)
        ensures
            writes(r, old(buf)@, final(buf)@, emitted(i8_bytes(x))),
    ;

    /// Writes a 16-bit signed integer.
    fn write_i16(buf: &mut Vec<u8>, x: i16) -> (r: Res)
        ensures
            writes(r, old(buf)@, final(buf)@, emitted(i16_bytes(Self::encoding(), x))),
    ;

    /// Writes a 32-bit signed integer.
    fn write_i32(buf: &mut Vec<u8>, x: i32) -> (r: Res)
        ensures
            writes(r, old(buf)@, final(buf)@, emitted(i32_bytes(Self::encoding(), x))),
    ;

    /// Writes a 64-bit signed integer.
    fn write_i64(buf: &mut Vec<u8>, x: i64) -> (r: Res)
        ensures
            writes(r, old(buf)@, final(buf)@, emitted(i64_bytes(Self::encoding(), x))),
    ;

    /// Writes a 32-bit floating point number, given as its bit pattern.
    fn write_f32(buf: &mut Vec<u8>, bits: u32) -> (r: Res)
        ensures
            writes(r, old(buf)@, final(buf)@, emitted(u32_bytes(Self::encoding(), bits))),
    ;

    /// Writes a 64-bit floating point number, given as its bit pattern.
    fn write_f64(buf: &mut Vec<u8>, bits: u64) -> (r: Res)
        ensures
            writes(r, old(buf)@, final(buf)@, emitted(u64_bytes(Self::encoding(), bits))),
    ;

    /// Writes the length of an array or a list, or fails where it is above [`i32::MAX`].
    fn write_seq_len(buf: &mut Vec<u8>, len: usize) -> (r: Res)
        ensures
            writes(r, old(buf)@, final(buf)@, seq_len_written(Self::encoding(), len as nat)),
    ;

    /// Writes the length of a string, or fails where it is above [`i16::MAX`].
    fn write_string_len(buf: &mut Vec<u8>, len: usize) -> (r: Res)
        ensures
            writes(r, old(buf)@, final(buf)@, string_len_written(Self::encoding(), len as nat)),
    ;

    /// Writes the NBT `end` tag, which ends a compound tag.
    fn write_end(buf: &mut Vec<u8>) -> (r: Res)
        ensures
            writes(r, old(buf)@, final(buf)@, emitted(seq![0u8])),
    {
        Self::write_u8(buf, 0)
    }

    /// Writes a string given as its bytes: their number, then the bytes as they are.
    fn write_string_bytes(buf: &mut Vec<u8>, x: &[u8]) -> (r: Res)
        ensures
            writes(r, old(buf)@, final(buf)@, string_bytes_written(Self::encoding(), x@)),
    {
        match Self::write_string_len(buf, x.len()) {
            Ok(_) => {},
            Err(err) => {
                return Err(err);
            },
        }
        let ghost head = buf@;
        let mut i: usize = 0;
        while i < x.len()
            invariant
                0 <= i <= x.len(),
                buf@ == head + x@.take(i as int),
            decreases x.len() - i,
        {
            match Self::write_u8(buf, x[i]) {
                Ok(_) => {},
                Err(err) => {
                    return Err(err);
                },
            }
            assert(buf@ =~= head + x@.take(i + 1));
            i += 1;
        }
        assert(x@.take(x.len() as int) =~= x@);
        assert(buf@ =~= old(buf)@ + string_bytes_written(Self::encoding(), x@).bytes);
        Ok(())
    }

    /// Writes a string as its Modified UTF-8 bytes, or fails where there are
    /// more than [`i16::MAX`] of them.
    fn write_string(buf: &mut Vec<u8>, x: &str) -> (r: Res)
        ensures
            writes(r, old(buf)@, final(buf)@, string_bytes_written(Self::encoding(), encoded(x@))),
    {
        let modified_bytes = to_java_cesu8(x);
        Self::write_string_bytes(buf, modified_bytes.as_slice())
    }

    /// Writes a variable-length array of 8-bit signed integers.
    fn write_i8_vec(buf: &mut Vec<u8>, x: &[i8]) -> (r: Res)
        ensures
            writes(r, old(buf)@, final(buf)@, array_written(Self::encoding(), x@, i8_form())),
    {
        match Self::write_seq_len(buf, x.len()) {
            Ok(_) => {},
            Err(err) => {
                return Err(err);
            },
        }
        let ghost head = buf@;
        let mut i: usize = 0;
        proof {
            lemma_forms_all(x@, i8_form());
        }
        while i < x.len()
            invariant
                0 <= i <= x.len(),
                buf@ == head + forms(x@, i8_form(), i as int),
            decreases x.len() - i,
        {
            match Self::write_i8(buf, x[i]) {
                Ok(_) => {},
                Err(err) => {
                    return Err(err);
                },
            }
            proof {
                lemma_forms_step(x@, i8_form(), i as int);
                assert(buf@ =~= head + forms(x@, i8_form(), i + 1));
            }
            i += 1;
        }
        assert(buf@ =~= old(buf)@ + array_written(Self::encoding(), x@, i8_form()).bytes);
        Ok(())
    }

    /// Writes a variable-length array of 8-bit unsigned integers.
    fn write_u8_vec(buf: &mut Vec<u8>, x: &[u8]) -> (r: Res)
        ensures
            writes(r, old(buf)@, final(buf)@, array_written(Self::encoding(), x@, u8_form())),
    {
        match Self::write_seq_len(buf, x.len()) {
            Ok(_) => {},
            Err(err) => {
                return Err(err);
            },
        }
        let ghost head = buf@;
        let mut i: usize = 0;
        proof {
            lemma_forms_all(x@, u8_form());
        }
        while i < x.len()
            invariant
                0 <= i <= x.len(),
                buf@ == head + forms(x@, u8_form(), i as int),
            decreases x.len() - i,
        {
            match Self::write_u8(buf, x[i]) {
                Ok(_) => {},
                Err(err) => {
                    return Err(err);
                },
            }
            proof {
                lemma_forms_step(x@, u8_form(), i as int);
                assert(buf@ =~= head + forms(x@, u8_form(), i + 1));
            }
            i += 1;
        }
        assert(buf@ =~= old(buf)@ + array_written(Self::encoding(), x@, u8_form()).bytes);
        Ok(())
    }

    /// Writes a variable-length array of 32-bit signed integers.
    fn write_i32_vec(buf: &mut Vec<u8>, x: &[i32]) -> (r: Res)
        ensures
            writes(
                r,
                old(buf)@,
                final(buf)@,
                array_written(Self::encoding(), x@, i32_form(Self::encoding())),
            ),
    {
        match Self::write_seq_len(buf, x.len()) {
            Ok(_) => {},
            Err(err) => {
                return Err(err);
            },
        }
        let ghost head = buf@;
        let ghost form = i32_form(Self::encoding());
        let mut i: usize = 0;
        proof {
            lemma_forms_all(x@, form);
        }
        while i < x.len()
            invariant
                0 <= i <= x.len(),
                form == i32_form(Self::encoding()),
                buf@ == head + forms(x@, form, i as int),
            decreases x.len() - i,
        {
            match Self::write_i32(buf, x[i]) {
                Ok(_) => {},
                Err(err) => {
                    return Err(err);
                },
            }
            proof {
                lemma_forms_step(x@, form, i as int);
                assert(buf@ =~= head + forms(x@, form, i + 1));
            }
            i += 1;
        }
        assert(buf@ =~= old(buf)@ + array_written(Self::encoding(), x@, form).bytes);
        Ok(())
    }

    /// Writes a variable-length array of 64-bit signed integers.
    fn write_i64_vec(buf: &mut Vec<u8>, x: &[i64]) -> (r: Res)
        ensures
            writes(
                r,
                old(buf)@,
                final(buf)@,
                array_written(Self::encoding(), x@, i64_form(Self::encoding())),
            ),
    {
        match Self::write_seq_len(buf, x.len()) {
            Ok(_) => {},
            Err(err) => {
                return Err(err);
            },
        }
        let ghost head = buf@;
        let ghost form = i64_form(Self::encoding());
        let mut i: usize = 0;
        proof {
            lemma_forms_all(x@, form);
        }
        while i < x.len()
            invariant
                0 <= i <= x.len(),
                form == i64_form(Self::encoding()),
                buf@ == head + forms(x@, form, i as int),
            decreases x.len() - i,
        {
            match Self::write_i64(buf, x[i]) {
                Ok(_) => {},
                Err(err) => {
                    return Err(err);
                },
            }
            proof {
                lemma_forms_step(x@, form, i as int);
                assert(buf@ =~= head + forms(x@, form, i + 1));
            }
            i += 1;
        }
        assert(buf@ =~= old(buf)@ + array_written(Self::encoding(), x@, form).bytes);
        Ok(())
    }
}

} // verus!

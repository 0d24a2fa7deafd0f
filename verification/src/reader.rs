//! See [`Reader`].
use crate::err::Failure;
use crate::err::NBTError;
use crate::err::PathPart;
use crate::err::ReadError;
use crate::err::ReadFault;
use crate::format::i32_item;
use crate::format::i64_item;
use crate::format::i8_item;
use crate::format::lemma_parse_many_step;
use crate::format::parse_array;
use crate::format::parse_end;
use crate::format::parse_i16;
use crate::format::parse_i32;
use crate::format::parse_i64;
use crate::format::parse_i8;
use crate::format::parse_many;
use crate::format::parse_seq_len;
use crate::format::parse_string;
use crate::format::parse_string_bytes;
use crate::format::parse_string_len;
use crate::format::parse_u32;
use crate::format::parse_u64;
use crate::format::parse_u8;
use crate::format::u8_item;
use crate::format::with_front;
use crate::format::Parsed;
use crate::mutf8::from_java_cesu8;
use crate::wire::Encoding;
use vstd::prelude::*;

verus! {

/// The result of reading.
pub type Res<T> = Result<T, NBTError<ReadError>>;

/// What a call that reads has done: where `want` is a value, the call has
/// returned it and the source holds the bytes that are left; where `want` is a
/// failure, the call has failed with it and the source is as it was.
pub open spec fn reads<T: View>(r: Res<T>, before: Seq<u8>, after: Seq<u8>, want: Parsed<T::V>) -> bool {
    match want {
        Ok((v, rest)) => r matches Ok(x) && x@ == v && after == rest,
        Err(f) => r matches Err(err) && err@ == f && after == before,
    }
}

/// The space to set aside for a sequence whose prefix claims `len` elements:
/// never more than 1024, so that a false claim costs little.
pub fn reserve(len: usize) -> (n: usize)
    ensures
        n == if len < 1024 { len } else { 1024 },
{
    if len < 1024 {
        len
    } else {
        1024
    }
}

/// How the basic values of NBT are read in one encoding.
///
/// A read that fails leaves the source as it was.
pub trait Reader {
    /// The encoding that this reader reads.
    spec fn encoding() -> Encoding;

    /// Reads an 8-bit unsigned integer.
    fn u8(buf: &mut &[u8]) -> (r: Res<u8>)
        ensures
            reads(r, old(buf)@, final(buf)@, parse_u8(old(buf)@)),
    ;

    /// Reads an 8-bit signed integer.
    fn i8(buf: &mut &[u8]) -> (r: Res<i8>)
        ensures
            reads(r, old(buf)@, final(buf)@, parse_i8(old(buf)@)),
    ;

    /// Reads a 16-bit signed integer.
    fn i16(buf: &mut &[u8]) -> (r: Res<i16>)
        ensures
            reads(r, old(buf)@, final(buf)@, parse_i16(Self::encoding(), old(buf)@)),
    ;

    /// Reads a 32-bit signed integer.
    fn i32(buf: &mut &[u8]) -> (r: Res<i32>)
        ensures
            reads(r, old(buf)@, final(buf)@, parse_i32(Self::encoding(), old(buf)@)),
    ;

    /// Reads a 64-bit signed integer.
    fn i64(buf: &mut &[u8]) -> (r: Res<i64>)
        ensures
            reads(r, old(buf)@, final(buf)@, parse_i64(Self::encoding(), old(buf)@)),
    ;

    /// Reads a 32-bit floating point number as its bit pattern.
    fn f32_bits(buf: &mut &[u8]) -> (r: Res<u32>)
        ensures
            reads(r, old(buf)@, final(buf)@, parse_u32(Self::encoding(), old(buf)@)),
    ;

    /// Reads a 64-bit floating point number as its bit pattern.
    fn f64_bits(buf: &mut &[u8]) -> (r: Res<u64>)
        ensures
            reads(r, old(buf)@, final(buf)@, parse_u64(Self::encoding(), old(buf)@)),
    ;

    /// Reads the length of an array or a list, and fails where it is negative.
    fn seq_len(buf: &mut &[u8]) -> (r: Res<usize>)
        ensures
            reads(r, old(buf)@, final(buf)@, parse_seq_len(Self::encoding(), old(buf)@)),
    ;

    /// Reads the length of a string, and fails where it is negative.
    fn string_len(buf: &mut &[u8]) -> (r: Res<usize>)
        ensures
            reads(r, old(buf)@, final(buf)@, parse_string_len(Self::encoding(), old(buf)@)),
    ;

    /// Reads the NBT `end` tag, which ends a compound tag.
    fn end(buf: &mut &[u8]) -> (r: Res<()>)
        ensures
            reads(r, old(buf)@, final(buf)@, parse_end(old(buf)@)),
    {
        let mut cur: &[u8] = *buf;
        let t = match Self::u8(&mut cur) {
            Ok(t) => t,
            Err(err) => {
                return Err(err);
            },
        };
        if t != 0 {
            return Err(NBTError::new(ReadError::UnexpectedTag(0, t)));
        }
        *buf = cur;
        Ok(())
    }

    /// Reads the bytes of a variable-length string.
    fn string_bytes(buf: &mut &[u8]) -> (r: Res<Vec<u8>>)
        ensures
            reads(r, old(buf)@, final(buf)@, parse_string_bytes(Self::encoding(), old(buf)@)),
    {
        let mut cur: &[u8] = *buf;
        let len = match Self::string_len(&mut cur) {
            Ok(len) => len,
            Err(err) => {
                return Err(err);
            },
        };
        let ghost start = cur@;
        let mut str_buf: Vec<u8> = Vec::with_capacity(reserve(len));
        let mut i: usize = 0;
        assert(with_front(str_buf@, parse_many(u8_item(), cur@, len as nat, 0)) == parse_many(
            u8_item(),
            start,
            len as nat,
            0,
        )) by {
            assert(Seq::<u8>::empty() + parse_many(u8_item(), cur@, len as nat, 0)->Ok_0.0
                =~= parse_many(u8_item(), cur@, len as nat, 0)->Ok_0.0);
        }
        while i < len
            invariant
                0 <= i <= len,
                buf@ == old(buf)@,
                parse_string_len(Self::encoding(), old(buf)@) == Ok::<_, Failure<ReadFault>>(
                    (len, start),
                ),
                with_front(str_buf@, parse_many(u8_item(), cur@, (len - i) as nat, i as nat))
                    == parse_many(u8_item(), start, len as nat, 0),
            decreases len - i,
        {
            proof {
                lemma_parse_many_step(u8_item(), cur@, (len - i) as nat, i as nat, str_buf@);
            }
            match Self::u8(&mut cur) {
                Ok(b) => str_buf.push(b),
                Err(err) => {
                    return Err(err.prepend(PathPart::Element(i)));
                },
            }
            i += 1;
        }
        assert(str_buf@ + Seq::<u8>::empty() =~= str_buf@);
        *buf = cur;
        Ok(str_buf)
    }

    /// Reads a variable-length string, and fails where its bytes are not
    /// Modified UTF-8.
    fn string(buf: &mut &[u8]) -> (r: Res<String>)
        ensures
            reads(r, old(buf)@, final(buf)@, parse_string(Self::encoding(), old(buf)@)),
    {
        let mut cur: &[u8] = *buf;
        let str_buf = match Self::string_bytes(&mut cur) {
            Ok(bytes) => bytes,
            Err(err) => {
                return Err(err);
            },
        };
        match from_java_cesu8(str_buf.as_slice()) {
            Ok(text) => {
                *buf = cur;
                Ok(text)
            },
            Err(_) => Err(NBTError::new(ReadError::InvalidString(str_buf))),
        }
    }

    /// Reads a variable-length array of 8-bit unsigned integers.
    fn u8_vec(buf: &mut &[u8]) -> (r: Res<Vec<u8>>)
        ensures
            reads(r, old(buf)@, final(buf)@, parse_array(Self::encoding(), u8_item(), old(buf)@)),
    {
        let mut cur: &[u8] = *buf;
        let len = match Self::seq_len(&mut cur) {
            Ok(len) => len,
            Err(err) => {
                return Err(err);
            },
        };
        let ghost start = cur@;
        let mut vec_buf: Vec<u8> = Vec::with_capacity(reserve(len));
        let mut i: usize = 0;
        assert(with_front(vec_buf@, parse_many(u8_item(), cur@, len as nat, 0)) == parse_many(
            u8_item(),
            start,
            len as nat,
            0,
        )) by {
            assert(Seq::<u8>::empty() + parse_many(u8_item(), cur@, len as nat, 0)->Ok_0.0
                =~= parse_many(u8_item(), cur@, len as nat, 0)->Ok_0.0);
        }
        while i < len
            invariant
                0 <= i <= len,
                buf@ == old(buf)@,
                parse_seq_len(Self::encoding(), old(buf)@) == Ok::<_, Failure<ReadFault>>(
                    (len, start),
                ),
                with_front(vec_buf@, parse_many(u8_item(), cur@, (len - i) as nat, i as nat))
                    == parse_many(u8_item(), start, len as nat, 0),
            decreases len - i,
        {
            proof {
                lemma_parse_many_step(u8_item(), cur@, (len - i) as nat, i as nat, vec_buf@);
            }
            match Self::u8(&mut cur) {
                Ok(b) => vec_buf.push(b),
                Err(err) => {
                    return Err(err.prepend(PathPart::Element(i)));
                },
            }
            i += 1;
        }
        assert(vec_buf@ + Seq::<u8>::empty() =~= vec_buf@);
        *buf = cur;
        Ok(vec_buf)
    }

    /// Reads a variable-length array of 8-bit signed integers.
    fn i8_vec(buf: &mut &[u8]) -> (r: Res<Vec<i8>>)
        ensures
            reads(r, old(buf)@, final(buf)@, parse_array(Self::encoding(), i8_item(), old(buf)@)),
    {
        let mut cur: &[u8] = *buf;
        let len = match Self::seq_len(&mut cur) {
            Ok(len) => len,
            Err(err) => {
                return Err(err);
            },
        };
        let ghost start = cur@;
        let mut vec_buf: Vec<i8> = Vec::with_capacity(reserve(len));
        let mut i: usize = 0;
        assert(with_front(vec_buf@, parse_many(i8_item(), cur@, len as nat, 0)) == parse_many(
            i8_item(),
            start,
            len as nat,
            0,
        )) by {
            assert(Seq::<i8>::empty() + parse_many(i8_item(), cur@, len as nat, 0)->Ok_0.0
                =~= parse_many(i8_item(), cur@, len as nat, 0)->Ok_0.0);
        }
        while i < len
            invariant
                0 <= i <= len,
                buf@ == old(buf)@,
                parse_seq_len(Self::encoding(), old(buf)@) == Ok::<_, Failure<ReadFault>>(
                    (len, start),
                ),
                with_front(vec_buf@, parse_many(i8_item(), cur@, (len - i) as nat, i as nat))
                    == parse_many(i8_item(), start, len as nat, 0),
            decreases len - i,
        {
            proof {
                lemma_parse_many_step(i8_item(), cur@, (len - i) as nat, i as nat, vec_buf@);
            }
            match Self::i8(&mut cur) {
                Ok(b) => vec_buf.push(b),
                Err(err) => {
                    return Err(err.prepend(PathPart::Element(i)));
                },
            }
            i += 1;
        }
        assert(vec_buf@ + Seq::<i8>::empty() =~= vec_buf@);
        *buf = cur;
        Ok(vec_buf)
    }

    /// Reads a variable-length array of 32-bit signed integers.
    fn i32_vec(buf: &mut &[u8]) -> (r: Res<Vec<i32>>)
        ensures
            reads(
                r,
                old(buf)@,
                final(buf)@,
                parse_array(Self::encoding(), i32_item(Self::encoding()), old(buf)@),
            ),
    {
        let mut cur: &[u8] = *buf;
        let len = match Self::seq_len(&mut cur) {
            Ok(len) => len,
            Err(err) => {
                return Err(err);
            },
        };
        let ghost start = cur@;
        let ghost item = i32_item(Self::encoding());
        let mut vec_buf: Vec<i32> = Vec::with_capacity(reserve(len));
        let mut i: usize = 0;
        assert(with_front(vec_buf@, parse_many(item, cur@, len as nat, 0)) == parse_many(
            item,
            start,
            len as nat,
            0,
        )) by {
            assert(Seq::<i32>::empty() + parse_many(item, cur@, len as nat, 0)->Ok_0.0
                =~= parse_many(item, cur@, len as nat, 0)->Ok_0.0);
        }
        while i < len
            invariant
                0 <= i <= len,
                buf@ == old(buf)@,
                parse_seq_len(Self::encoding(), old(buf)@) == Ok::<_, Failure<ReadFault>>(
                    (len, start),
                ),
                item == i32_item(Self::encoding()),
                with_front(vec_buf@, parse_many(item, cur@, (len - i) as nat, i as nat))
                    == parse_many(item, start, len as nat, 0),
            decreases len - i,
        {
            proof {
                lemma_parse_many_step(item, cur@, (len - i) as nat, i as nat, vec_buf@);
            }
            match Self::i32(&mut cur) {
                Ok(b) => vec_buf.push(b),
                Err(err) => {
                    return Err(err.prepend(PathPart::Element(i)));
                },
            }
            i += 1;
        }
        assert(vec_buf@ + Seq::<i32>::empty() =~= vec_buf@);
        *buf = cur;
        Ok(vec_buf)
    }

    /// Reads a variable-length array of 64-bit signed integers.
    fn i64_vec(buf: &mut &[u8]) -> (r: Res<Vec<i64>>)
        ensures
            reads(
                r,
                old(buf)@,
                final(buf)@,
                parse_array(Self::encoding(), i64_item(Self::encoding()), old(buf)@),
            ),
    {
        let mut cur: &[u8] = *buf;
        let len = match Self::seq_len(&mut cur) {
            Ok(len) => len,
            Err(err) => {
                return Err(err);
            },
        };
        let ghost start = cur@;
        let ghost item = i64_item(Self::encoding());
        let mut vec_buf: Vec<i64> = Vec::with_capacity(reserve(len));
        let mut i: usize = 0;
        assert(with_front(vec_buf@, parse_many(item, cur@, len as nat, 0)) == parse_many(
            item,
            start,
            len as nat,
            0,
        )) by {
            assert(Seq::<i64>::empty() + parse_many(item, cur@, len as nat, 0)->Ok_0.0
                =~= parse_many(item, cur@, len as nat, 0)->Ok_0.0);
        }
        while i < len
            invariant
                0 <= i <= len,
                buf@ == old(buf)@,
                parse_seq_len(Self::encoding(), old(buf)@) == Ok::<_, Failure<ReadFault>>(
                    (len, start),
                ),
                item == i64_item(Self::encoding()),
                with_front(vec_buf@, parse_many(item, cur@, (len - i) as nat, i as nat))
                    == parse_many(item, start, len as nat, 0),
            decreases len - i,
        {
            proof {
                lemma_parse_many_step(item, cur@, (len - i) as nat, i as nat, vec_buf@);
            }
            match Self::i64(&mut cur) {
                Ok(b) => vec_buf.push(b),
                Err(err) => {
                    return Err(err.prepend(PathPart::Element(i)));
                },
            }
            i += 1;
        }
        assert(vec_buf@ + Seq::<i64>::empty() =~= vec_buf@);
        *buf = cur;
        Ok(vec_buf)
    }
}

} // verus!

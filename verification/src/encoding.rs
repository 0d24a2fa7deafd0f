//! The three encodings of NBT:
//!  - [`BigEndian`]
//!  - [`LittleEndian`]
//!  - [`NetworkLittleEndian`]
use crate::err::IoError;
use crate::err::NBTError;
use crate::err::ReadError;
use crate::err::WriteError;
use crate::format::parse_fixed;
use crate::format::parse_i8;
use crate::format::parse_u8;
use crate::format::lemma_uvarint_bound;
use crate::format::parse_uvarint;
use crate::output::i8_bytes;
use crate::reader;
use crate::reader::reads;
use crate::reader::Reader;
use crate::wire::lemma_pow128_bound;
use crate::wire::bytes2;
use crate::wire::bytes4;
use crate::wire::bytes8;
use crate::wire::put2;
use crate::wire::put4;
use crate::wire::put8;
use crate::wire::put_uvarint;
use crate::wire::signed;
use crate::wire::take2;
use crate::wire::take4;
use crate::wire::take8;
use crate::wire::unsigned;
use crate::wire::unzigzag;
use crate::wire::uvarint_bytes;
use crate::wire::zigzag;
use crate::wire::Encoding;
use crate::writer;
use crate::writer::Writer;
use vstd::prelude::*;
use vstd::slice::slice_subrange;

verus! {

/// The encoding with every fixed-width number in big-endian byte order.
///
/// This is the encoding of Minecraft: Java Edition.
#[derive(Debug, Default, Clone)]
pub struct BigEndian;

/// The encoding with every fixed-width number in little-endian byte order.
///
/// This is the encoding of the world saves of Minecraft: Bedrock Edition. It is
/// not the same as [`NetworkLittleEndian`].
#[derive(Debug, Default, Clone)]
pub struct LittleEndian;

/// The little-endian encoding in which 32-bit and 64-bit signed integers and
/// the length of a string are of variable length.
///
/// This is the encoding of the network protocol of Minecraft: Bedrock Edition.
#[derive(Debug, Default, Clone)]
pub struct NetworkLittleEndian;

/// The error of a source that ends too early.
fn eof() -> (err: NBTError<ReadError>)
    ensures
        err@ == crate::format::end_of_input(),
{
    NBTError::new(ReadError::Io(IoError::UnexpectedEof))
}

/// Reads one byte.
fn read_u8(buf: &mut &[u8]) -> (r: reader::Res<u8>)
    ensures
        reads(r, old(buf)@, final(buf)@, parse_u8(old(buf)@)),
{
    let s: &[u8] = *buf;
    if s.len() == 0 {
        return Err(eof());
    }
    let b = s[0];
    *buf = slice_subrange(s, 1, s.len());
    Ok(b)
}

/// Reads one byte as a signed number.
fn read_i8(buf: &mut &[u8]) -> (r: reader::Res<i8>)
    ensures
        reads(r, old(buf)@, final(buf)@, parse_i8(old(buf)@)),
{
    let s: &[u8] = *buf;
    if s.len() == 0 {
        return Err(eof());
    }
    let b = s[0];
    *buf = slice_subrange(s, 1, s.len());
    Ok(
        if b >= 0x80 {
            (b as i16 - 0x100) as i8
        } else {
            b as i8
        },
    )
}

/// Reads a fixed-width 16-bit signed integer.
fn read_fixed_i16(buf: &mut &[u8], big: bool) -> (r: reader::Res<i16>)
    ensures
        match parse_fixed(big, 2, old(buf)@) {
            Ok((u, rest)) => r matches Ok(x) && x == signed(u, 0x1_0000) && final(buf)@ == rest,
            Err(f) => r matches Err(err) && err@ == f && final(buf)@ == old(buf)@,
        },
{
    match take2(buf, big) {
        None => Err(eof()),
        Some(u) => Ok(
            if u >= 0x8000 {
                (u as i32 - 0x1_0000) as i16
            } else {
                u as i16
            },
        ),
    }
}

/// Reads a fixed-width 32-bit number.
fn read_fixed_u32(buf: &mut &[u8], big: bool) -> (r: reader::Res<u32>)
    ensures
        match parse_fixed(big, 4, old(buf)@) {
            Ok((u, rest)) => r matches Ok(x) && x == u && final(buf)@ == rest,
            Err(f) => r matches Err(err) && err@ == f && final(buf)@ == old(buf)@,
        },
{
    match take4(buf, big) {
        None => Err(eof()),
        Some(u) => Ok(u),
    }
}

/// Reads a fixed-width 64-bit number.
fn read_fixed_u64(buf: &mut &[u8], big: bool) -> (r: reader::Res<u64>)
    ensures
        match parse_fixed(big, 8, old(buf)@) {
            Ok((u, rest)) => r matches Ok(x) && x == u && final(buf)@ == rest,
            Err(f) => r matches Err(err) && err@ == f && final(buf)@ == old(buf)@,
        },
{
    match take8(buf, big) {
        None => Err(eof()),
        Some(u) => Ok(u),
    }
}

/// Reads a fixed-width 32-bit signed integer.
fn read_fixed_i32(buf: &mut &[u8], big: bool) -> (r: reader::Res<i32>)
    ensures
        match parse_fixed(big, 4, old(buf)@) {
            Ok((u, rest)) => r matches Ok(x) && x == signed(u, 0x1_0000_0000) && final(buf)@
                == rest,
            Err(f) => r matches Err(err) && err@ == f && final(buf)@ == old(buf)@,
        },
{
    match take4(buf, big) {
        None => Err(eof()),
        Some(u) => Ok(
            if u >= 0x8000_0000 {
                (u as i64 - 0x1_0000_0000) as i32
            } else {
                u as i32
            },
        ),
    }
}

/// Reads a fixed-width 64-bit signed integer.
fn read_fixed_i64(buf: &mut &[u8], big: bool) -> (r: reader::Res<i64>)
    ensures
        match parse_fixed(big, 8, old(buf)@) {
            Ok((u, rest)) => {
                &&& r matches Ok(x) && x == signed(u, 0x1_0000_0000_0000_0000)
                &&& final(buf)@ == rest
            },
            Err(f) => r matches Err(err) && err@ == f && final(buf)@ == old(buf)@,
        },
{
    match take8(buf, big) {
        None => Err(eof()),
        Some(u) => Ok(
            if u >= 0x8000_0000_0000_0000 {
                (u as i128 - 0x1_0000_0000_0000_0000) as i64
            } else {
                u as i64
            },
        ),
    }
}

/// Reads the length of an array or a list, and fails where it is negative.
fn read_seq_len(buf: &mut &[u8], big: bool) -> (r: reader::Res<usize>)
    ensures
        match parse_fixed(big, 4, old(buf)@) {
            Ok((u, rest)) => {
                let len = signed(u, 0x1_0000_0000);
                if len < 0 {
                    r matches Err(err) && err@ == crate::format::bad_length(
                        crate::format::max_seq_len(),
                        len,
                    ) && final(buf)@ == old(buf)@
                } else {
                    r matches Ok(x) && x == len && final(buf)@ == rest
                }
            },
            Err(f) => r matches Err(err) && err@ == f && final(buf)@ == old(buf)@,
        },
{
    let mut cur: &[u8] = *buf;
    let len = match read_fixed_i32(&mut cur, big) {
        Ok(len) => len,
        Err(err) => {
            return Err(err);
        },
    };
    if len < 0 {
        return Err(NBTError::new(ReadError::SeqLengthViolation(0x7fff_ffff, len)));
    }
    *buf = cur;
    Ok(len as usize)
}

/// Reads the two-byte length of a string, and fails where it is negative.
fn read_fixed_string_len(buf: &mut &[u8], big: bool) -> (r: reader::Res<usize>)
    ensures
        match parse_fixed(big, 2, old(buf)@) {
            Ok((u, rest)) => {
                let len = signed(u, 0x1_0000);
                if len < 0 {
                    r matches Err(err) && err@ == crate::format::bad_length(
                        crate::format::max_string_len(),
                        len,
                    ) && final(buf)@ == old(buf)@
                } else {
                    r matches Ok(x) && x == len && final(buf)@ == rest
                }
            },
            Err(f) => r matches Err(err) && err@ == f && final(buf)@ == old(buf)@,
        },
{
    let mut cur: &[u8] = *buf;
    let len = match read_fixed_i16(&mut cur, big) {
        Ok(len) => len,
        Err(err) => {
            return Err(err);
        },
    };
    if len < 0 {
        return Err(NBTError::new(ReadError::SeqLengthViolation(0x7fff, len as i32)));
    }
    *buf = cur;
    Ok(len as usize)
}

/// Reads a variable-length number of at most `limit` bytes.
fn read_uvarint(buf: &mut &[u8], limit: usize) -> (r: reader::Res<u128>)
    requires
        limit <= 10,
    ensures
        match parse_uvarint(old(buf)@, limit as nat) {
            Ok((u, rest)) => r matches Ok(x) && x == u && final(buf)@ == rest,
            Err(f) => r matches Err(err) && err@ == f && final(buf)@ == old(buf)@,
        },
    decreases limit,
{
    if limit == 0 {
        return Err(NBTError::new(ReadError::Custom(String::from_str("varint overflows integer"))));
    }
    let s: &[u8] = *buf;
    if s.len() == 0 {
        return Err(eof());
    }
    let b = s[0];
    let mut cur: &[u8] = slice_subrange(s, 1, s.len());
    if b < 0x80 {
        *buf = cur;
        return Ok(b as u128);
    }
    proof {
        lemma_uvarint_bound(s@.skip(1), (limit - 1) as nat);
        lemma_pow128_bound((limit - 1) as nat);
    }
    match read_uvarint(&mut cur, limit - 1) {
        Ok(high) => {
            *buf = cur;
            Ok((b - 0x80) as u128 + 128 * high)
        },
        Err(err) => Err(err),
    }
}

/// Reads a variable-length 32-bit signed integer.
fn read_varint_i32(buf: &mut &[u8]) -> (r: reader::Res<i32>)
    ensures
        match parse_uvarint(old(buf)@, 5) {
            Ok((u, rest)) => r matches Ok(x) && x == unzigzag(u % 0x1_0000_0000) && final(buf)@
                == rest,
            Err(f) => r matches Err(err) && err@ == f && final(buf)@ == old(buf)@,
        },
{
    match read_uvarint(buf, 5) {
        Err(err) => Err(err),
        Ok(u) => {
            let low = (u % 0x1_0000_0000) as u64;
            let half = (low / 2) as i64;
            Ok(
                if low % 2 == 0 {
                    half as i32
                } else {
                    (-half - 1) as i32
                },
            )
        },
    }
}

/// Reads a variable-length 64-bit signed integer.
fn read_varint_i64(buf: &mut &[u8]) -> (r: reader::Res<i64>)
    ensures
        match parse_uvarint(old(buf)@, 10) {
            Ok((u, rest)) => r matches Ok(x) && x == unzigzag(u % 0x1_0000_0000_0000_0000)
                && final(buf)@ == rest,
            Err(f) => r matches Err(err) && err@ == f && final(buf)@ == old(buf)@,
        },
{
    match read_uvarint(buf, 10) {
        Err(err) => Err(err),
        Ok(u) => {
            let low = (u % 0x1_0000_0000_0000_0000) as u64;
            let half = (low / 2) as i64;
            Ok(
                if low % 2 == 0 {
                    half
                } else {
                    -half - 1
                },
            )
        },
    }
}

/// Reads the variable-length length of a string, and fails where it is above
/// [`i16::MAX`].
fn read_varint_string_len(buf: &mut &[u8]) -> (r: reader::Res<usize>)
    ensures
        reads(r, old(buf)@, final(buf)@, crate::format::parse_string_len(Encoding::Network, old(buf)@)),
{
    let mut cur: &[u8] = *buf;
    match read_uvarint(&mut cur, 5) {
        Err(err) => Err(err),
        Ok(u) => {
            let low = (u % 0x1_0000_0000) as u64;
            if low > 0x7fff {
                let got = if low >= 0x8000_0000 {
                    (low as i64 - 0x1_0000_0000) as i32
                } else {
                    low as i32
                };
                return Err(NBTError::new(ReadError::SeqLengthViolation(0x7fff, got)));
            }
            *buf = cur;
            Ok(low as usize)
        },
    }
}

/// Writes one byte as a signed number.
fn write_byte(buf: &mut Vec<u8>, x: i8)
    ensures
        final(buf)@ == old(buf)@ + i8_bytes(x),
{
    let b = if x < 0 {
        (x as i16 + 0x100) as u8
    } else {
        x as u8
    };
    buf.push(b);
    assert(buf@ =~= old(buf)@ + i8_bytes(x));
}

/// Writes a fixed-width 16-bit signed integer.
fn write_fixed_i16(buf: &mut Vec<u8>, big: bool, x: i16)
    ensures
        final(buf)@ == old(buf)@ + bytes2(big, unsigned(x as int, 0x1_0000)),
{
    let u = if x < 0 {
        (x as i32 + 0x1_0000) as u16
    } else {
        x as u16
    };
    put2(buf, big, u);
}

/// Writes a fixed-width 32-bit signed integer.
fn write_fixed_i32(buf: &mut Vec<u8>, big: bool, x: i32)
    ensures
        final(buf)@ == old(buf)@ + bytes4(big, unsigned(x as int, 0x1_0000_0000)),
{
    let u = if x < 0 {
        (x as i64 + 0x1_0000_0000) as u32
    } else {
        x as u32
    };
    put4(buf, big, u);
}

/// Writes a fixed-width 64-bit signed integer.
fn write_fixed_i64(buf: &mut Vec<u8>, big: bool, x: i64)
    ensures
        final(buf)@ == old(buf)@ + bytes8(big, unsigned(x as int, 0x1_0000_0000_0000_0000)),
{
    let u = if x < 0 {
        (x as i128 + 0x1_0000_0000_0000_0000) as u64
    } else {
        x as u64
    };
    put8(buf, big, u);
}

/// Writes a variable-length signed integer of up to 64 bits.
fn write_varint(buf: &mut Vec<u8>, x: i64)
    ensures
        final(buf)@ == old(buf)@ + uvarint_bytes(zigzag(x as int)),
{
    let wide: i128 = x as i128;
    let u = if wide >= 0 {
        (2 * wide) as u64
    } else {
        let magnitude: i128 = 0 - wide;
        (2 * magnitude - 1) as u64
    };
    put_uvarint(buf, u);
}

/// Writes the four-byte length of an array or a list, or fails where it is
/// above [`i32::MAX`].
fn write_fixed_seq_len(buf: &mut Vec<u8>, big: bool, len: usize) -> (r: writer::Res)
    ensures
        len <= 0x7fff_ffff ==> r is Ok && final(buf)@ == old(buf)@ + bytes4(big, len as int),
        len > 0x7fff_ffff ==> final(buf)@ == old(buf)@ && (r matches Err(err) && err@
            == crate::format::at_root(crate::output::too_long(0x7fff_ffff, len as nat))),
{
    if len > 0x7fff_ffff {
        return Err(NBTError::new(WriteError::SeqLengthViolation(0x7fff_ffff, len)));
    }
    put4(buf, big, len as u32);
    Ok(())
}

/// The error of a string that is too long to be written.
fn string_too_long(len: usize) -> (err: NBTError<WriteError>)
    ensures
        err@ == crate::format::at_root(crate::output::too_long(0x7fff, len as nat)),
{
    NBTError::new(WriteError::SeqLengthViolation(0x7fff, len))
}

impl Reader for BigEndian {
    open spec fn encoding() -> Encoding {
        Encoding::Big
    }

    fn u8(buf: &mut &[u8]) -> (r: reader::Res<u8>) {
        read_u8(buf)
    }

    fn i8(buf: &mut &[u8]) -> (r: reader::Res<i8>) {
        read_i8(buf)
    }

    fn i16(buf: &mut &[u8]) -> (r: reader::Res<i16>) {
        read_fixed_i16(buf, true)
    }

    fn i32(buf: &mut &[u8]) -> (r: reader::Res<i32>) {
        read_fixed_i32(buf, true)
    }

    fn i64(buf: &mut &[u8]) -> (r: reader::Res<i64>) {
        read_fixed_i64(buf, true)
    }

    fn f32_bits(buf: &mut &[u8]) -> (r: reader::Res<u32>) {
        read_fixed_u32(buf, true)
    }

    fn f64_bits(buf: &mut &[u8]) -> (r: reader::Res<u64>) {
        read_fixed_u64(buf, true)
    }

    fn seq_len(buf: &mut &[u8]) -> (r: reader::Res<usize>) {
        read_seq_len(buf, true)
    }

    fn string_len(buf: &mut &[u8]) -> (r: reader::Res<usize>) {
        read_fixed_string_len(buf, true)
    }
}

impl Writer for BigEndian {
    open spec fn encoding() -> Encoding {
        Encoding::Big
    }

    fn write_u8(buf: &mut Vec<u8>, x: u8) -> (r: writer::Res) {
        buf.push(x);
        assert(buf@ =~= old(buf)@ + seq![x]);
        Ok(())
    }

    fn write_i8(buf: &mut Vec<u8>, x: i8) -> (r: writer::Res) {
        write_byte(buf, x);
        Ok(())
    }

    fn write_i16(buf: &mut Vec<u8>, x: i16) -> (r: writer::Res) {
        write_fixed_i16(buf, true, x);
        Ok(())
    }

    fn write_i32(buf: &mut Vec<u8>, x: i32) -> (r: writer::Res) {
        write_fixed_i32(buf, true, x);
        Ok(())
    }

    fn write_i64(buf: &mut Vec<u8>, x: i64) -> (r: writer::Res) {
        write_fixed_i64(buf, true, x);
        Ok(())
    }

    fn write_f32(buf: &mut Vec<u8>, bits: u32) -> (r: writer::Res) {
        put4(buf, true, bits);
        Ok(())
    }

    fn write_f64(buf: &mut Vec<u8>, bits: u64) -> (r: writer::Res) {
        put8(buf, true, bits);
        Ok(())
    }

    fn write_seq_len(buf: &mut Vec<u8>, len: usize) -> (r: writer::Res) {
        let r = write_fixed_seq_len(buf, true, len);
        assert(buf@ =~= old(buf)@ + crate::output::seq_len_written(Encoding::Big, len as nat).bytes);
        r
    }

    fn write_string_len(buf: &mut Vec<u8>, len: usize) -> (r: writer::Res) {
        if len > 0x7fff {
            assert(buf@ =~= old(buf)@ + Seq::<u8>::empty());
            return Err(string_too_long(len));
        }
        put2(buf, true, len as u16);
        Ok(())
    }
}

impl Reader for LittleEndian {
    open spec fn encoding() -> Encoding {
        Encoding::Little
    }

    fn u8(buf: &mut &[u8]) -> (r: reader::Res<u8>) {
        read_u8(buf)
    }

    fn i8(buf: &mut &[u8]) -> (r: reader::Res<i8>) {
        read_i8(buf)
    }

    fn i16(buf: &mut &[u8]) -> (r: reader::Res<i16>) {
        read_fixed_i16(buf, false)
    }

    fn i32(buf: &mut &[u8]) -> (r: reader::Res<i32>) {
        read_fixed_i32(buf, false)
    }

    fn i64(buf: &mut &[u8]) -> (r: reader::Res<i64>) {
        read_fixed_i64(buf, false)
    }

    fn f32_bits(buf: &mut &[u8]) -> (r: reader::Res<u32>) {
        read_fixed_u32(buf, false)
    }

    fn f64_bits(buf: &mut &[u8]) -> (r: reader::Res<u64>) {
        read_fixed_u64(buf, false)
    }

    fn seq_len(buf: &mut &[u8]) -> (r: reader::Res<usize>) {
        read_seq_len(buf, false)
    }

    fn string_len(buf: &mut &[u8]) -> (r: reader::Res<usize>) {
        read_fixed_string_len(buf, false)
    }
}

impl Writer for LittleEndian {
    open spec fn encoding() -> Encoding {
        Encoding::Little
    }

    fn write_u8(buf: &mut Vec<u8>, x: u8) -> (r: writer::Res) {
        buf.push(x);
        assert(buf@ =~= old(buf)@ + seq![x]);
        Ok(())
    }

    fn write_i8(buf: &mut Vec<u8>, x: i8) -> (r: writer::Res) {
        write_byte(buf, x);
        Ok(())
    }

    fn write_i16(buf: &mut Vec<u8>, x: i16) -> (r: writer::Res) {
        write_fixed_i16(buf, false, x);
        Ok(())
    }

    fn write_i32(buf: &mut Vec<u8>, x: i32) -> (r: writer::Res) {
        write_fixed_i32(buf, false, x);
        Ok(())
    }

    fn write_i64(buf: &mut Vec<u8>, x: i64) -> (r: writer::Res) {
        write_fixed_i64(buf, false, x);
        Ok(())
    }

    fn write_f32(buf: &mut Vec<u8>, bits: u32) -> (r: writer::Res) {
        put4(buf, false, bits);
        Ok(())
    }

    fn write_f64(buf: &mut Vec<u8>, bits: u64) -> (r: writer::Res) {
        put8(buf, false, bits);
        Ok(())
    }

    fn write_seq_len(buf: &mut Vec<u8>, len: usize) -> (r: writer::Res) {
        let r = write_fixed_seq_len(buf, false, len);
        assert(buf@ =~= old(buf)@ + crate::output::seq_len_written(Encoding::Little, len as nat).bytes);
        r
    }

    fn write_string_len(buf: &mut Vec<u8>, len: usize) -> (r: writer::Res) {
        if len > 0x7fff {
            assert(buf@ =~= old(buf)@ + Seq::<u8>::empty());
            return Err(string_too_long(len));
        }
        put2(buf, false, len as u16);
        Ok(())
    }
}

impl Reader for NetworkLittleEndian {
    open spec fn encoding() -> Encoding {
        Encoding::Network
    }

    fn u8(buf: &mut &[u8]) -> (r: reader::Res<u8>) {
        read_u8(buf)
    }

    fn i8(buf: &mut &[u8]) -> (r: reader::Res<i8>) {
        read_i8(buf)
    }

    fn i16(buf: &mut &[u8]) -> (r: reader::Res<i16>) {
        read_fixed_i16(buf, false)
    }

    fn i32(buf: &mut &[u8]) -> (r: reader::Res<i32>) {
        read_varint_i32(buf)
    }

    fn i64(buf: &mut &[u8]) -> (r: reader::Res<i64>) {
        read_varint_i64(buf)
    }

    fn f32_bits(buf: &mut &[u8]) -> (r: reader::Res<u32>) {
        read_fixed_u32(buf, false)
    }

    fn f64_bits(buf: &mut &[u8]) -> (r: reader::Res<u64>) {
        read_fixed_u64(buf, false)
    }

    fn seq_len(buf: &mut &[u8]) -> (r: reader::Res<usize>) {
        read_seq_len(buf, false)
    }

    fn string_len(buf: &mut &[u8]) -> (r: reader::Res<usize>) {
        read_varint_string_len(buf)
    }
}

impl Writer for NetworkLittleEndian {
    open spec fn encoding() -> Encoding {
        Encoding::Network
    }

    fn write_u8(buf: &mut Vec<u8>, x: u8) -> (r: writer::Res) {
        buf.push(x);
        assert(buf@ =~= old(buf)@ + seq![x]);
        Ok(())
    }

    fn write_i8(buf: &mut Vec<u8>, x: i8) -> (r: writer::Res) {
        write_byte(buf, x);
        Ok(())
    }

    fn write_i16(buf: &mut Vec<u8>, x: i16) -> (r: writer::Res) {
        write_fixed_i16(buf, false, x);
        Ok(())
    }

    fn write_i32(buf: &mut Vec<u8>, x: i32) -> (r: writer::Res) {
        write_varint(buf, x as i64);
        Ok(())
    }

    fn write_i64(buf: &mut Vec<u8>, x: i64) -> (r: writer::Res) {
        write_varint(buf, x);
        Ok(())
    }

    fn write_f32(buf: &mut Vec<u8>, bits: u32) -> (r: writer::Res) {
        put4(buf, false, bits);
        Ok(())
    }

    fn write_f64(buf: &mut Vec<u8>, bits: u64) -> (r: writer::Res) {
        put8(buf, false, bits);
        Ok(())
    }

    fn write_seq_len(buf: &mut Vec<u8>, len: usize) -> (r: writer::Res) {
        let r = write_fixed_seq_len(buf, false, len);
        assert(buf@ =~= old(buf)@ + crate::output::seq_len_written(Encoding::Network, len as nat).bytes);
        r
    }

    fn write_string_len(buf: &mut Vec<u8>, len: usize) -> (r: writer::Res) {
        if len > 0x7fff {
            assert(buf@ =~= old(buf)@ + Seq::<u8>::empty());
            return Err(string_too_long(len));
        }
        put_uvarint(buf, len as u64);
        Ok(())
    }
}

} // verus!

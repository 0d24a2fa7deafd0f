//! How integers are laid out in bytes: fixed-width forms in either byte order,
//! and the variable-length form with its zig-zag mapping of signed numbers.
use vstd::prelude::*;
use vstd::slice::slice_subrange;

verus! {

/// The three wire encodings.
pub enum Encoding {
    /// Every fixed-width number has its most significant byte first.
    Big,
    /// Every fixed-width number has its least significant byte first.
    Little,
    /// As `Little`, but 32-bit and 64-bit signed integers and the length of a
    /// string are of variable length.
    Network,
}

impl Encoding {
    /// Whether fixed-width numbers have their most significant byte first.
    pub open spec fn big(self) -> bool {
        self is Big
    }
}

/// The number below `modulus` that stands for `x` in two's complement.
pub open spec fn unsigned(x: int, modulus: int) -> int {
    if x < 0 {
        x + modulus
    } else {
        x
    }
}

/// The signed number that `u`, below `modulus`, stands for in two's complement.
pub open spec fn signed(u: int, modulus: int) -> int {
    if 2 * u >= modulus {
        u - modulus
    } else {
        u
    }
}

/// The two bytes of a number below 2^16.
#[verifier::opaque]
pub open spec fn bytes2(big: bool, u: int) -> Seq<u8> {
    let b0 = (u % 256) as u8;
    let b1 = (u / 256 % 256) as u8;
    if big {
        seq![b1, b0]
    } else {
        seq![b0, b1]
    }
}

/// The four bytes of a number below 2^32.
#[verifier::opaque]
pub open spec fn bytes4(big: bool, u: int) -> Seq<u8> {
    let u1 = u / 256;
    let u2 = u1 / 256;
    let u3 = u2 / 256;
    let b0 = (u % 256) as u8;
    let b1 = (u1 % 256) as u8;
    let b2 = (u2 % 256) as u8;
    let b3 = (u3 % 256) as u8;
    if big {
        seq![b3, b2, b1, b0]
    } else {
        seq![b0, b1, b2, b3]
    }
}

/// The eight bytes of a number below 2^64.
#[verifier::opaque]
pub open spec fn bytes8(big: bool, u: int) -> Seq<u8> {
    let u1 = u / 256;
    let u2 = u1 / 256;
    let u3 = u2 / 256;
    let u4 = u3 / 256;
    let u5 = u4 / 256;
    let u6 = u5 / 256;
    let u7 = u6 / 256;
    let b0 = (u % 256) as u8;
    let b1 = (u1 % 256) as u8;
    let b2 = (u2 % 256) as u8;
    let b3 = (u3 % 256) as u8;
    let b4 = (u4 % 256) as u8;
    let b5 = (u5 % 256) as u8;
    let b6 = (u6 % 256) as u8;
    let b7 = (u7 % 256) as u8;
    if big {
        seq![b7, b6, b5, b4, b3, b2, b1, b0]
    } else {
        seq![b0, b1, b2, b3, b4, b5, b6, b7]
    }
}

/// The number that the first two bytes of `s` hold.
#[verifier::opaque]
pub open spec fn value2(big: bool, s: Seq<u8>) -> int
    recommends
        s.len() >= 2,
{
    if big {
        s[0] * 256 + s[1]
    } else {
        s[1] * 256 + s[0]
    }
}

/// The number that the first four bytes of `s` hold.
#[verifier::opaque]
pub open spec fn value4(big: bool, s: Seq<u8>) -> int
    recommends
        s.len() >= 4,
{
    if big {
        ((s[0] * 256 + s[1]) * 256 + s[2]) * 256 + s[3]
    } else {
        ((s[3] * 256 + s[2]) * 256 + s[1]) * 256 + s[0]
    }
}

/// The number that the first eight bytes of `s` hold.
#[verifier::opaque]
pub open spec fn value8(big: bool, s: Seq<u8>) -> int
    recommends
        s.len() >= 8,
{
    if big {
        ((((((s[0] * 256 + s[1]) * 256 + s[2]) * 256 + s[3]) * 256 + s[4]) * 256 + s[5]) * 256
            + s[6]) * 256 + s[7]
    } else {
        ((((((s[7] * 256 + s[6]) * 256 + s[5]) * 256 + s[4]) * 256 + s[3]) * 256 + s[2]) * 256
            + s[1]) * 256 + s[0]
    }
}

/// The variable-length form of a natural number: seven bits to a byte, the
/// low bits first, the high bit set on every byte but the last.
pub open spec fn uvarint_bytes(u: nat) -> Seq<u8>
    decreases u,
{
    if u < 128 {
        seq![u as u8]
    } else {
        seq![(u % 128 + 128) as u8] + uvarint_bytes(u / 128)
    }
}

/// 128 to the power of `n`: the bound on a variable-length number of `n` bytes.
pub open spec fn pow128(n: nat) -> nat
    decreases n,
{
    if n == 0 {
        1
    } else {
        128 * pow128((n - 1) as nat)
    }
}

/// A power of 128 is positive.
pub proof fn lemma_pow128_positive(n: nat)
    ensures
        pow128(n) >= 1,
    decreases n,
{
    if n > 0 {
        lemma_pow128_positive((n - 1) as nat);
    }
}

/// Ten bytes of seven bits each hold a number below 2^70.
pub proof fn lemma_pow128_bound(n: nat)
    requires
        n <= 10,
    ensures
        pow128(n) <= 0x40_0000_0000_0000_0000,
    decreases n,
{
    reveal_with_fuel(pow128, 11);
}

/// The zig-zag mapping: non-negative numbers go to the even numbers, negative
/// ones to the odd ones, those of small magnitude to small numbers.
pub open spec fn zigzag(x: int) -> nat {
    if x >= 0 {
        (2 * x) as nat
    } else {
        (-2 * x - 1) as nat
    }
}

/// The inverse of [`zigzag`].
pub open spec fn unzigzag(u: nat) -> int {
    if u % 2 == 0 {
        (u / 2) as int
    } else {
        -(u / 2) - 1
    }
}

/// The zig-zag mapping and its inverse in bits, at 32 and at 64 bits: a
/// number goes to itself shifted left by one, exclusive-or its sign spread
/// over all bits; and back to the image shifted right by one, exclusive-or
/// all ones where the lowest bit of the image is set.
pub proof fn lemma_zigzag_in_bits(x: i32, y: i64, u: u32, v: u64)
    ensures
        zigzag(x as int) == ((x << 1) ^ (x >> 31)) as u32,
        zigzag(y as int) == ((y << 1) ^ (y >> 63)) as u64,
        unzigzag(u as nat) == ((u >> 1) as i32) ^ (if u & 1 == 1 {
            -1i32
        } else {
            0i32
        }),
        unzigzag(v as nat) == ((v >> 1) as i64) ^ (if v & 1 == 1 {
            -1i64
        } else {
            0i64
        }),
{
    assert(x >= 0 ==> ((x << 1) ^ (x >> 31)) as u32 == 2 * x) by (bit_vector);
    assert(x < 0 ==> ((x << 1) ^ (x >> 31)) as u32 == -2 * x - 1) by (bit_vector);
    assert(y >= 0 ==> ((y << 1) ^ (y >> 63)) as u64 == 2 * y) by (bit_vector);
    assert(y < 0 ==> ((y << 1) ^ (y >> 63)) as u64 == -2 * y - 1) by (bit_vector);
    assert(u % 2 == 0 ==> ((u >> 1) as i32) ^ (if u & 1 == 1 {
        -1i32
    } else {
        0i32
    }) == u / 2) by (bit_vector);
    assert(u % 2 != 0 ==> ((u >> 1) as i32) ^ (if u & 1 == 1 {
        -1i32
    } else {
        0i32
    }) == -(u / 2) - 1) by (bit_vector);
    assert(v % 2 == 0 ==> ((v >> 1) as i64) ^ (if v & 1 == 1 {
        -1i64
    } else {
        0i64
    }) == v / 2) by (bit_vector);
    assert(v % 2 != 0 ==> ((v >> 1) as i64) ^ (if v & 1 == 1 {
        -1i64
    } else {
        0i64
    }) == -(v / 2) - 1) by (bit_vector);
}

/// Appends the two bytes of `u`.
pub fn put2(buf: &mut Vec<u8>, big: bool, u: u16)
    ensures
        final(buf)@ == old(buf)@ + bytes2(big, u as int),
{
    let b0 = (u % 256) as u8;
    let b1 = (u / 256) as u8;
    if big {
        buf.push(b1);
        buf.push(b0);
    } else {
        buf.push(b0);
        buf.push(b1);
    }
    proof {
        reveal(bytes2);
    }
    assert(buf@ =~= old(buf)@ + bytes2(big, u as int));
}

/// Appends the four bytes of `u`.
pub fn put4(buf: &mut Vec<u8>, big: bool, u: u32)
    ensures
        final(buf)@ == old(buf)@ + bytes4(big, u as int),
{
    let u1 = u / 256;
    let u2 = u1 / 256;
    let u3 = u2 / 256;
    let b0 = (u % 256) as u8;
    let b1 = (u1 % 256) as u8;
    let b2 = (u2 % 256) as u8;
    let b3 = u3 as u8;
    if big {
        buf.push(b3);
        buf.push(b2);
        buf.push(b1);
        buf.push(b0);
    } else {
        buf.push(b0);
        buf.push(b1);
        buf.push(b2);
        buf.push(b3);
    }
    proof {
        reveal(bytes4);
    }
    assert(buf@ =~= old(buf)@ + bytes4(big, u as int));
}

/// Appends the eight bytes of `u`.
pub fn put8(buf: &mut Vec<u8>, big: bool, u: u64)
    ensures
        final(buf)@ == old(buf)@ + bytes8(big, u as int),
{
    let u1 = u / 256;
    let u2 = u1 / 256;
    let u3 = u2 / 256;
    let u4 = u3 / 256;
    let u5 = u4 / 256;
    let u6 = u5 / 256;
    let u7 = u6 / 256;
    let b0 = (u % 256) as u8;
    let b1 = (u1 % 256) as u8;
    let b2 = (u2 % 256) as u8;
    let b3 = (u3 % 256) as u8;
    let b4 = (u4 % 256) as u8;
    let b5 = (u5 % 256) as u8;
    let b6 = (u6 % 256) as u8;
    let b7 = u7 as u8;
    if big {
        buf.push(b7);
        buf.push(b6);
        buf.push(b5);
        buf.push(b4);
        buf.push(b3);
        buf.push(b2);
        buf.push(b1);
        buf.push(b0);
    } else {
        buf.push(b0);
        buf.push(b1);
        buf.push(b2);
        buf.push(b3);
        buf.push(b4);
        buf.push(b5);
        buf.push(b6);
        buf.push(b7);
    }
    proof {
        reveal(bytes8);
    }
    assert(buf@ =~= old(buf)@ + bytes8(big, u as int));
}

/// Appends the variable-length form of `u`.
pub fn put_uvarint(buf: &mut Vec<u8>, u: u64)
    ensures
        final(buf)@ == old(buf)@ + uvarint_bytes(u as nat),
{
    let mut rest = u;
    while rest >= 128
        invariant
            old(buf)@ + uvarint_bytes(u as nat) == buf@ + uvarint_bytes(rest as nat),
        decreases rest,
    {
        let ghost before = buf@;
        buf.push((rest % 128 + 128) as u8);
        assert(before + uvarint_bytes(rest as nat) =~= buf@ + uvarint_bytes((rest / 128) as nat));
        rest = rest / 128;
    }
    let ghost before = buf@;
    buf.push(rest as u8);
    assert(before + uvarint_bytes(rest as nat) =~= buf@);
}

/// Takes two bytes off the front of the source.
pub fn take2(buf: &mut &[u8], big: bool) -> (r: Option<u16>)
    ensures
        match r {
            Some(u) => old(buf)@.len() >= 2 && u == value2(big, old(buf)@) && final(buf)@ == old(
                buf,
            )@.skip(2),
            None => old(buf)@.len() < 2 && final(buf)@ == old(buf)@,
        },
{
    proof {
        reveal(value2);
    }
    let s: &[u8] = *buf;
    if s.len() < 2 {
        return None;
    }
    let a = s[0] as u16;
    let b = s[1] as u16;
    *buf = slice_subrange(s, 2, s.len());
    Some(if big { a * 256 + b } else { b * 256 + a })
}

/// Takes four bytes off the front of the source.
pub fn take4(buf: &mut &[u8], big: bool) -> (r: Option<u32>)
    ensures
        match r {
            Some(u) => old(buf)@.len() >= 4 && u == value4(big, old(buf)@) && final(buf)@ == old(
                buf,
            )@.skip(4),
            None => old(buf)@.len() < 4 && final(buf)@ == old(buf)@,
        },
{
    proof {
        reveal(value4);
    }
    let s: &[u8] = *buf;
    if s.len() < 4 {
        return None;
    }
    let a = s[0] as u32;
    let b = s[1] as u32;
    let c = s[2] as u32;
    let d = s[3] as u32;
    *buf = slice_subrange(s, 4, s.len());
    Some(
        if big {
            ((a * 256 + b) * 256 + c) * 256 + d
        } else {
            ((d * 256 + c) * 256 + b) * 256 + a
        },
    )
}

/// Takes eight bytes off the front of the source.
pub fn take8(buf: &mut &[u8], big: bool) -> (r: Option<u64>)
    ensures
        match r {
            Some(u) => old(buf)@.len() >= 8 && u == value8(big, old(buf)@) && final(buf)@ == old(
                buf,
            )@.skip(8),
            None => old(buf)@.len() < 8 && final(buf)@ == old(buf)@,
        },
{
    proof {
        reveal(value8);
    }
    let s: &[u8] = *buf;
    if s.len() < 8 {
        return None;
    }
    let a = s[0] as u64;
    let b = s[1] as u64;
    let c = s[2] as u64;
    let d = s[3] as u64;
    let e = s[4] as u64;
    let f = s[5] as u64;
    let g = s[6] as u64;
    let h = s[7] as u64;
    *buf = slice_subrange(s, 8, s.len());
    Some(
        if big {
            ((((((a * 256 + b) * 256 + c) * 256 + d) * 256 + e) * 256 + f) * 256 + g) * 256 + h
        } else {
            ((((((h * 256 + g) * 256 + f) * 256 + e) * 256 + d) * 256 + c) * 256 + b) * 256 + a
        },
    )
}

} // verus!

use nbt_codec::encoding::BigEndian;
use nbt_codec::encoding::LittleEndian;
use nbt_codec::encoding::NetworkLittleEndian;
use nbt_codec::err::IoError;
use nbt_codec::err::ReadError;
use nbt_codec::reader::Reader;
use nbt_codec::tag;
use nbt_codec::writer::Writer;
use nbt_codec::NBTTag;

fn written<W: Writer>(tag: &NBTTag) -> Vec<u8> {
    let mut buf = vec![];
    tag.write::<W>(&mut buf).unwrap();
    buf
}

fn varint32(x: i32) -> Vec<u8> {
    let mut buf = vec![];
    NetworkLittleEndian::write_i32(&mut buf, x).unwrap();
    buf
}

fn varint64(x: i64) -> Vec<u8> {
    let mut buf = vec![];
    NetworkLittleEndian::write_i64(&mut buf, x).unwrap();
    buf
}

#[test]
fn byte_is_one_byte_in_twos_complement() {
    assert_eq!(written::<BigEndian>(&NBTTag::Byte(tag::Byte(-1))), vec![1, 0, 0, 0xff]);
    assert_eq!(written::<LittleEndian>(&NBTTag::Byte(tag::Byte(-128))), vec![1, 0, 0, 0x80]);
    assert_eq!(written::<NetworkLittleEndian>(&NBTTag::Byte(tag::Byte(127))), vec![1, 0, 0x7f]);
}

#[test]
fn short_is_two_bytes_in_the_byte_order() {
    let tag = NBTTag::Short(tag::Short(0x1234));
    assert_eq!(written::<BigEndian>(&tag), vec![2, 0, 0, 0x12, 0x34]);
    assert_eq!(written::<LittleEndian>(&tag), vec![2, 0, 0, 0x34, 0x12]);
    assert_eq!(written::<NetworkLittleEndian>(&tag), vec![2, 0, 0x34, 0x12]);
    let tag = NBTTag::Short(tag::Short(-2));
    assert_eq!(written::<BigEndian>(&tag), vec![2, 0, 0, 0xff, 0xfe]);
    assert_eq!(written::<LittleEndian>(&tag), vec![2, 0, 0, 0xfe, 0xff]);
}

#[test]
fn int_is_four_bytes_or_a_varint() {
    let tag = NBTTag::Int(tag::Int(0x12345678));
    assert_eq!(written::<BigEndian>(&tag), vec![3, 0, 0, 0x12, 0x34, 0x56, 0x78]);
    assert_eq!(written::<LittleEndian>(&tag), vec![3, 0, 0, 0x78, 0x56, 0x34, 0x12]);
    assert_eq!(
        written::<NetworkLittleEndian>(&tag),
        vec![3, 0, 0xf0, 0xd9, 0xa2, 0xa3, 0x02]
    );
    let tag = NBTTag::Int(tag::Int(-2));
    assert_eq!(written::<BigEndian>(&tag), vec![3, 0, 0, 0xff, 0xff, 0xff, 0xfe]);
    assert_eq!(written::<LittleEndian>(&tag), vec![3, 0, 0, 0xfe, 0xff, 0xff, 0xff]);
    assert_eq!(written::<NetworkLittleEndian>(&tag), vec![3, 0, 0x03]);
}

#[test]
fn long_is_eight_bytes_or_a_varint() {
    let tag = NBTTag::Long(tag::Long(0x0102030405060708));
    assert_eq!(written::<BigEndian>(&tag), vec![4, 0, 0, 1, 2, 3, 4, 5, 6, 7, 8]);
    assert_eq!(written::<LittleEndian>(&tag), vec![4, 0, 0, 8, 7, 6, 5, 4, 3, 2, 1]);
    let tag = NBTTag::Long(tag::Long(-10));
    assert_eq!(
        written::<BigEndian>(&tag),
        vec![4, 0, 0, 0xff, 0xff, 0xff, 0xff, 0xff, 0xff, 0xff, 0xf6]
    );
    assert_eq!(written::<NetworkLittleEndian>(&tag), vec![4, 0, 0x13]);
}

#[test]
fn floats_keep_their_bit_pattern() {
    let one = NBTTag::Float(tag::Float(1.0f32.to_bits()));
    assert_eq!(written::<BigEndian>(&one), vec![5, 0, 0, 0x3f, 0x80, 0, 0]);
    assert_eq!(written::<LittleEndian>(&one), vec![5, 0, 0, 0, 0, 0x80, 0x3f]);
    assert_eq!(written::<NetworkLittleEndian>(&one), vec![5, 0, 0, 0, 0x80, 0x3f]);
    let one = NBTTag::Double(tag::Double(1.0f64.to_bits()));
    assert_eq!(written::<BigEndian>(&one), vec![6, 0, 0, 0x3f, 0xf0, 0, 0, 0, 0, 0, 0]);
    assert_eq!(written::<LittleEndian>(&one), vec![6, 0, 0, 0, 0, 0, 0, 0, 0, 0xf0, 0x3f]);
}

#[test]
fn nan_payload_survives_bitwise() {
    let odd_nan: u32 = 0x7fc1_2345;
    assert!(f32::from_bits(odd_nan).is_nan());
    let tag = NBTTag::Float(tag::Float(odd_nan));
    let buf = written::<BigEndian>(&tag);
    let back = NBTTag::read::<BigEndian>(&mut buf.as_slice()).unwrap();
    assert_eq!(back, NBTTag::Float(tag::Float(odd_nan)));
    let odd_nan: u64 = 0xfff8_0000_dead_beef;
    assert!(f64::from_bits(odd_nan).is_nan());
    let tag = NBTTag::Double(tag::Double(odd_nan));
    let buf = written::<NetworkLittleEndian>(&tag);
    let back = NBTTag::read::<NetworkLittleEndian>(&mut buf.as_slice()).unwrap();
    assert_eq!(back, NBTTag::Double(tag::Double(odd_nan)));
}

#[test]
fn zigzag_varint_has_the_known_forms() {
    assert_eq!(varint32(0), vec![0x00]);
    assert_eq!(varint32(-1), vec![0x01]);
    assert_eq!(varint32(1), vec![0x02]);
    assert_eq!(varint32(-2), vec![0x03]);
    assert_eq!(varint32(63), vec![0x7e]);
    assert_eq!(varint32(-64), vec![0x7f]);
    assert_eq!(varint32(64), vec![0x80, 0x01]);
    assert_eq!(varint32(300), vec![0xd8, 0x04]);
    assert_eq!(varint32(-300), vec![0xd7, 0x04]);
    assert_eq!(varint32(i32::MAX), vec![0xfe, 0xff, 0xff, 0xff, 0x0f]);
    assert_eq!(varint32(i32::MIN), vec![0xff, 0xff, 0xff, 0xff, 0x0f]);
    assert_eq!(
        varint64(i64::MAX),
        vec![0xfe, 0xff, 0xff, 0xff, 0xff, 0xff, 0xff, 0xff, 0xff, 0x01]
    );
    assert_eq!(
        varint64(i64::MIN),
        vec![0xff, 0xff, 0xff, 0xff, 0xff, 0xff, 0xff, 0xff, 0xff, 0x01]
    );
}

#[test]
fn zigzag_varint_decodes_what_it_encoded() {
    for x in [0, 1, -1, 2, -2, 63, -64, 64, -65, 300, -300, 0x12345678, i32::MAX, i32::MIN] {
        let buf = varint32(x);
        let mut src = buf.as_slice();
        assert_eq!(NetworkLittleEndian::i32(&mut src).unwrap(), x);
        assert!(src.is_empty());
    }
    for x in [0, 1, -1, 10, -10, 1 << 40, -(1 << 40), i64::MAX, i64::MIN] {
        let buf = varint64(x);
        let mut src = buf.as_slice();
        assert_eq!(NetworkLittleEndian::i64(&mut src).unwrap(), x);
        assert!(src.is_empty());
    }
}

#[test]
fn varint_of_too_many_bytes_overflows() {
    let six: Vec<u8> = vec![0x80, 0x80, 0x80, 0x80, 0x80, 0x00];
    let mut src = six.as_slice();
    let err = NetworkLittleEndian::i32(&mut src).unwrap_err();
    assert_eq!(
        err.boxed.inner,
        ReadError::Custom("varint overflows integer".to_string())
    );
    assert!(err.boxed.path.0.is_empty());
    assert_eq!(src.len(), 6);
    let eleven: Vec<u8> = vec![0xff; 11];
    let err = NetworkLittleEndian::i64(&mut eleven.as_slice()).unwrap_err();
    assert_eq!(
        err.boxed.inner,
        ReadError::Custom("varint overflows integer".to_string())
    );
}

#[test]
fn varint_drops_what_lies_above_the_width() {
    let five: Vec<u8> = vec![0xff, 0xff, 0xff, 0xff, 0x7f];
    assert_eq!(NetworkLittleEndian::i32(&mut five.as_slice()).unwrap(), i32::MIN);
}

#[test]
fn truncated_numbers_are_io_errors() {
    let eof = ReadError::Io(IoError::UnexpectedEof);
    let none: Vec<u8> = vec![];
    let mut src = none.as_slice();
    assert_eq!(BigEndian::u8(&mut src).unwrap_err().boxed.inner, eof);
    assert_eq!(BigEndian::i8(&mut src).unwrap_err().boxed.inner, eof);
    let one: Vec<u8> = vec![0x12];
    let mut src = one.as_slice();
    assert_eq!(BigEndian::i16(&mut src).unwrap_err().boxed.inner, eof);
    assert_eq!(src.len(), 1);
    let three: Vec<u8> = vec![1, 2, 3];
    assert_eq!(LittleEndian::i32(&mut three.as_slice()).unwrap_err().boxed.inner, eof);
    assert_eq!(LittleEndian::f32_bits(&mut three.as_slice()).unwrap_err().boxed.inner, eof);
    let seven: Vec<u8> = vec![1, 2, 3, 4, 5, 6, 7];
    assert_eq!(BigEndian::i64(&mut seven.as_slice()).unwrap_err().boxed.inner, eof);
    assert_eq!(BigEndian::f64_bits(&mut seven.as_slice()).unwrap_err().boxed.inner, eof);
    let open: Vec<u8> = vec![0x80, 0x80];
    assert_eq!(NetworkLittleEndian::i32(&mut open.as_slice()).unwrap_err().boxed.inner, eof);
    let root: Vec<u8> = vec![0x03, 0x00, 0x00, 0x12, 0x34];
    let mut src = root.as_slice();
    assert_eq!(NBTTag::read::<BigEndian>(&mut src).unwrap_err().boxed.inner, eof);
    assert_eq!(src.len(), 5);
}

#[test]
fn numbers_are_read_in_the_byte_order() {
    let bytes: Vec<u8> = vec![0x12, 0x34, 0x56, 0x78, 0x9a, 0xbc, 0xde, 0xf0];
    assert_eq!(BigEndian::i16(&mut bytes.as_slice()).unwrap(), 0x1234);
    assert_eq!(LittleEndian::i16(&mut bytes.as_slice()).unwrap(), 0x3412);
    assert_eq!(NetworkLittleEndian::i16(&mut bytes.as_slice()).unwrap(), 0x3412);
    assert_eq!(BigEndian::i32(&mut bytes.as_slice()).unwrap(), 0x12345678);
    assert_eq!(LittleEndian::i32(&mut bytes.as_slice()).unwrap(), 0x78563412);
    assert_eq!(BigEndian::i64(&mut bytes.as_slice()).unwrap(), 0x123456789abcdef0);
    assert_eq!(
        LittleEndian::i64(&mut bytes.as_slice()).unwrap(),
        0xf0debc9a78563412u64 as i64
    );
    assert_eq!(BigEndian::f32_bits(&mut bytes.as_slice()).unwrap(), 0x12345678);
    assert_eq!(NetworkLittleEndian::f64_bits(&mut bytes.as_slice()).unwrap(), 0xf0debc9a78563412);
    let mut src = bytes.as_slice();
    assert_eq!(BigEndian::i8(&mut src).unwrap(), 0x12);
    assert_eq!(BigEndian::u8(&mut src).unwrap(), 0x34);
    assert_eq!(src, &[0x56, 0x78, 0x9a, 0xbc, 0xde, 0xf0]);
    let negative: Vec<u8> = vec![0xff, 0xfe];
    assert_eq!(BigEndian::i16(&mut negative.as_slice()).unwrap(), -2);
    assert_eq!(BigEndian::i8(&mut negative.as_slice()).unwrap(), -1);
}

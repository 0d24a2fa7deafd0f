use nbt_codec::encoding::BigEndian;
use nbt_codec::encoding::LittleEndian;
use nbt_codec::encoding::NetworkLittleEndian;
use nbt_codec::err::IoError;
use nbt_codec::err::PathPart;
use nbt_codec::err::ReadError;
use nbt_codec::err::WriteError;
use nbt_codec::reader::Reader;
use nbt_codec::tag;
use nbt_codec::writer::Writer;
use nbt_codec::NBTTag;
use nbt_codec::NBTTagType;

fn byte(x: i8) -> NBTTag {
    NBTTag::Byte(tag::Byte(x))
}

fn list(items: Vec<NBTTag>) -> NBTTag {
    NBTTag::List(tag::List(items))
}

fn survives<T: Reader + Writer>(tag: &NBTTag) {
    let mut buf = vec![];
    tag.write::<T>(&mut buf).unwrap();
    let mut src = buf.as_slice();
    assert_eq!(&NBTTag::read::<T>(&mut src).unwrap(), tag);
    assert!(src.is_empty());
}

#[test]
fn empty_list_is_written_with_type_zero() {
    let mut buf = vec![];
    list(vec![]).write::<BigEndian>(&mut buf).unwrap();
    assert_eq!(buf, vec![9, 0, 0, 0, 0, 0, 0, 0]);
    survives::<BigEndian>(&list(vec![]));
    survives::<LittleEndian>(&list(vec![]));
    survives::<NetworkLittleEndian>(&list(vec![]));
}

#[test]
fn empty_list_of_any_type_is_read() {
    for id in [0u8, 1, 9, 10, 12, 0x15, 0xff] {
        let input: Vec<u8> = vec![9, 0, 0, id, 0, 0, 0, 0];
        assert_eq!(NBTTag::read::<BigEndian>(&mut input.as_slice()).unwrap(), list(vec![]));
    }
}

#[test]
fn list_is_written_as_type_length_and_payloads() {
    let tag = list(vec![byte(1), byte(3)]);
    let mut buf = vec![];
    tag.write::<BigEndian>(&mut buf).unwrap();
    assert_eq!(buf, vec![9, 0, 0, 1, 0, 0, 0, 2, 1, 3]);
    let mut buf = vec![];
    tag.write::<LittleEndian>(&mut buf).unwrap();
    assert_eq!(buf, vec![9, 0, 0, 1, 2, 0, 0, 0, 1, 3]);
    // The length of a list is four bytes in the network encoding too.
    let mut buf = vec![];
    tag.write::<NetworkLittleEndian>(&mut buf).unwrap();
    assert_eq!(buf, vec![9, 0, 1, 2, 0, 0, 0, 1, 3]);
}

#[test]
fn arrays_are_written_as_length_and_items() {
    let ints = NBTTag::IntArray(tag::IntArray(vec![1, -1]));
    let mut buf = vec![];
    ints.write::<BigEndian>(&mut buf).unwrap();
    assert_eq!(buf, vec![11, 0, 0, 0, 0, 0, 2, 0, 0, 0, 1, 0xff, 0xff, 0xff, 0xff]);
    let mut buf = vec![];
    ints.write::<NetworkLittleEndian>(&mut buf).unwrap();
    assert_eq!(buf, vec![11, 0, 2, 0, 0, 0, 0x02, 0x01]);
    let longs = NBTTag::LongArray(tag::LongArray(vec![300]));
    let mut buf = vec![];
    longs.write::<LittleEndian>(&mut buf).unwrap();
    assert_eq!(buf, vec![12, 0, 0, 1, 0, 0, 0, 0x2c, 0x01, 0, 0, 0, 0, 0, 0]);
    let mut buf = vec![];
    longs.write::<NetworkLittleEndian>(&mut buf).unwrap();
    assert_eq!(buf, vec![12, 0, 1, 0, 0, 0, 0xd8, 0x04]);
    let bytes = NBTTag::ByteArray(tag::ByteArray(vec![1, -2, 3]));
    let mut buf = vec![];
    bytes.write::<BigEndian>(&mut buf).unwrap();
    assert_eq!(buf, vec![7, 0, 0, 0, 0, 0, 3, 1, 0xfe, 3]);
    for tag in [ints, longs, bytes] {
        survives::<BigEndian>(&tag);
        survives::<LittleEndian>(&tag);
        survives::<NetworkLittleEndian>(&tag);
    }
}

#[test]
fn unsigned_byte_vectors_are_written_and_read() {
    let mut buf = vec![];
    BigEndian::write_u8_vec(&mut buf, &[0xff, 0x00, 0x7f]).unwrap();
    assert_eq!(buf, vec![0, 0, 0, 3, 0xff, 0x00, 0x7f]);
    assert_eq!(BigEndian::u8_vec(&mut buf.as_slice()).unwrap(), vec![0xff, 0x00, 0x7f]);
}

#[test]
fn nested_lists_survive() {
    let tag = list(vec![
        list(vec![byte(1), byte(2)]),
        list(vec![]),
        list(vec![NBTTag::Long(tag::Long(-5))]),
    ]);
    survives::<BigEndian>(&tag);
    survives::<LittleEndian>(&tag);
    survives::<NetworkLittleEndian>(&tag);
}

#[test]
fn list_of_mixed_types_is_refused_at_the_odd_one() {
    let tag = list(vec![byte(1), byte(2), NBTTag::Short(tag::Short(3)), byte(4)]);
    let mut buf = vec![];
    let err = tag.write::<BigEndian>(&mut buf).unwrap_err();
    assert_eq!(
        err.boxed.inner,
        WriteError::UnexpectedTag(NBTTagType::Byte, NBTTagType::Short)
    );
    assert_eq!(err.boxed.path.0, vec![PathPart::Element(2)]);
    assert_eq!(err.boxed.path.to_string(), "[2]");
    // What was written before the failure stays in the sink.
    assert_eq!(buf, vec![9, 0, 0, 1, 0, 0, 0, 4, 1, 2]);
}

#[test]
fn failure_inside_a_list_is_reported_under_each_index() {
    let inner = list(vec![byte(1), NBTTag::Int(tag::Int(2))]);
    let tag = list(vec![list(vec![]), inner]);
    let err = tag.write::<LittleEndian>(&mut vec![]).unwrap_err();
    assert_eq!(err.boxed.inner, WriteError::UnexpectedTag(NBTTagType::Byte, NBTTagType::Int));
    assert_eq!(err.boxed.path.0, vec![PathPart::Element(1), PathPart::Element(1)]);
    assert_eq!(err.boxed.path.to_string(), "[1][1]");
}

#[test]
fn negative_length_is_refused() {
    let input: Vec<u8> = vec![9, 0, 0, 1, 0xff, 0xff, 0xff, 0xff];
    let err = NBTTag::read::<BigEndian>(&mut input.as_slice()).unwrap_err();
    assert_eq!(err.boxed.inner, ReadError::SeqLengthViolation(i32::MAX as usize, -1));
    let input: Vec<u8> = vec![7, 0, 0, 0x80, 0, 0, 0];
    let err = NBTTag::read::<BigEndian>(&mut input.as_slice()).unwrap_err();
    assert_eq!(err.boxed.inner, ReadError::SeqLengthViolation(i32::MAX as usize, i32::MIN));
    let input: Vec<u8> = vec![11, 0, 0xfe, 0xff, 0xff, 0xff];
    let err = NBTTag::read::<NetworkLittleEndian>(&mut input.as_slice()).unwrap_err();
    assert_eq!(err.boxed.inner, ReadError::SeqLengthViolation(i32::MAX as usize, -2));
}

#[test]
fn huge_claimed_length_fails_at_the_first_missing_item() {
    let input: Vec<u8> = vec![7, 0, 0, 0x7f, 0xff, 0xff, 0xff, 1, 2];
    let err = NBTTag::read::<BigEndian>(&mut input.as_slice()).unwrap_err();
    assert_eq!(err.boxed.inner, ReadError::Io(IoError::UnexpectedEof));
    assert_eq!(err.boxed.path.0, vec![PathPart::Element(2)]);
}

#[test]
fn list_of_an_unknown_type_fails_at_its_first_element() {
    let input: Vec<u8> = vec![9, 0, 0, 0, 0, 0, 0, 1, 5];
    let err = NBTTag::read::<BigEndian>(&mut input.as_slice()).unwrap_err();
    assert_eq!(err.boxed.inner, ReadError::UnknownTagType(0));
    assert_eq!(err.boxed.path.0, vec![PathPart::Element(0)]);
}

#[test]
fn failure_inside_a_read_list_is_reported_under_each_index() {
    // A list of two lists of ints; the second int of the second list is cut short.
    let input: Vec<u8> = vec![
        9, 0, 0, 9, 0, 0, 0, 2, 3, 0, 0, 0, 0, 3, 0, 0, 0, 2, 0, 0, 0, 7, 0, 0,
    ];
    let err = NBTTag::read::<BigEndian>(&mut input.as_slice()).unwrap_err();
    assert_eq!(err.boxed.inner, ReadError::Io(IoError::UnexpectedEof));
    assert_eq!(err.boxed.path.0, vec![PathPart::Element(1), PathPart::Element(1)]);
}

#[test]
fn reading_leaves_what_follows_the_root() {
    let input: Vec<u8> = vec![9, 0, 0, 1, 0, 0, 0, 1, 7, 0xaa, 0xbb];
    let mut src = input.as_slice();
    assert_eq!(NBTTag::read::<BigEndian>(&mut src).unwrap(), list(vec![byte(7)]));
    assert_eq!(src, &[0xaa, 0xbb]);
}

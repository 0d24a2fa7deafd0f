use nbt_codec::encoding::BigEndian;
use nbt_codec::encoding::LittleEndian;
use nbt_codec::encoding::NetworkLittleEndian;
use nbt_codec::err::ReadError;
use nbt_codec::reader::Reader;
use nbt_codec::tag;
use nbt_codec::NBTTag;

#[test]
fn int_tag_is_read_and_written_back() {
    let input: Vec<u8> = vec![0x03, 0x00, 0x01, 0x61, 0x12, 0x34, 0x56, 0x78];
    let mut src = input.as_slice();
    let nbt = NBTTag::read::<BigEndian>(&mut src).unwrap();
    assert_eq!(nbt, NBTTag::Int(tag::Int(0x12345678)));
    assert!(src.is_empty());
    // The name of a root is dropped when it is read, and written as the empty name.
    let mut buf = vec![];
    nbt.write::<BigEndian>(&mut buf).unwrap();
    assert_eq!(buf, vec![0x03, 0x00, 0x00, 0x12, 0x34, 0x56, 0x78]);
}

#[test]
fn named_int_tag_is_written_back_as_it_was() {
    let input: Vec<u8> = vec![0x03, 0x00, 0x01, 0x61, 0x12, 0x34, 0x56, 0x78];
    let mut src = input.as_slice();
    let (name, nbt) = NBTTag::read_named::<BigEndian>(&mut src).unwrap();
    assert_eq!(name, "a");
    assert_eq!(nbt, NBTTag::Int(tag::Int(0x12345678)));
    assert!(src.is_empty());
    let mut buf = vec![];
    nbt.write_named::<BigEndian>(&name, &mut buf).unwrap();
    assert_eq!(buf, input);
    let mut buf = vec![];
    nbt.write_named::<NetworkLittleEndian>("\0", &mut buf).unwrap();
    assert_eq!(buf, vec![3, 2, 0xc0, 0x80, 0xf0, 0xd9, 0xa2, 0xa3, 0x02]);
    let (name, back) = NBTTag::read_named::<NetworkLittleEndian>(&mut buf.as_slice()).unwrap();
    assert_eq!(name, "\0");
    assert_eq!(back, nbt);
}

#[test]
fn name_of_a_root_that_is_too_long_is_refused() {
    let name = "n".repeat(40000);
    let mut buf = vec![];
    let err = NBTTag::default().write_named::<BigEndian>(&name, &mut buf).unwrap_err();
    assert_eq!(
        err.boxed.inner,
        nbt_codec::err::WriteError::SeqLengthViolation(i16::MAX as usize, 40000)
    );
    assert_eq!(buf, vec![10]);
}

#[test]
fn unknown_id_is_refused() {
    let input: Vec<u8> = vec![0x15, 0x00, 0x01, 0x61, 0x12, 0x34, 0x56, 0x78];
    let mut src = input.as_slice();
    let mut err = NBTTag::read::<BigEndian>(&mut src).unwrap_err();
    assert_eq!(err.boxed.inner, ReadError::UnknownTagType(0x15));
    assert_eq!(err.inner, ReadError::UnknownTagType(0x15));
    assert!(err.path.0.is_empty());
    err.inner = ReadError::UnknownTagType(0x16);
    assert_eq!(err.boxed.inner, ReadError::UnknownTagType(0x16));
    assert_eq!(src.len(), 8);
}

#[test]
fn tag_of_a_known_type_is_read_and_written() {
    let input: Vec<u8> = vec![0x03, 0x00, 0x01, 0x61, 0x12, 0x34, 0x56, 0x78];
    assert_eq!(tag::Int::read::<BigEndian>(&mut input.as_slice()).unwrap(), tag::Int(0x12345678));
    let mut src = input.as_slice();
    let err = tag::Short::read::<BigEndian>(&mut src).unwrap_err();
    assert_eq!(err.boxed.inner, ReadError::UnexpectedTag(2, 3));
    assert_eq!(src.len(), 8);
    let mut buf = vec![];
    tag::Int(0x12345678).write::<LittleEndian>(&mut buf).unwrap();
    assert_eq!(buf, vec![3, 0, 0, 0x78, 0x56, 0x34, 0x12]);
    let mut buf = vec![];
    tag::String::Utf8("hi".to_string()).write::<NetworkLittleEndian>(&mut buf).unwrap();
    assert_eq!(buf, vec![8, 0, 2, b'h', b'i']);
    assert_eq!(
        tag::String::read::<NetworkLittleEndian>(&mut buf.as_slice()).unwrap(),
        tag::String::Utf8("hi".to_string())
    );
    let mut buf = vec![];
    tag::List(vec![]).write::<BigEndian>(&mut buf).unwrap();
    assert_eq!(tag::List::read::<BigEndian>(&mut buf.as_slice()).unwrap(), tag::List(vec![]));
    let err = tag::Compound::read::<BigEndian>(&mut buf.as_slice()).unwrap_err();
    assert_eq!(err.boxed.inner, ReadError::UnexpectedTag(10, 9));
}

#[test]
fn end_of_a_compound_is_read() {
    let input: Vec<u8> = vec![0, 7];
    let mut src = input.as_slice();
    BigEndian::end(&mut src).unwrap();
    assert_eq!(src, &[7]);
    let err = BigEndian::end(&mut src).unwrap_err();
    assert_eq!(err.boxed.inner, ReadError::UnexpectedTag(0, 7));
    assert_eq!(src, &[7]);
}

#[test]
fn tags_convert_to_and_from_what_they_carry() {
    assert_eq!(NBTTag::from(tag::Byte(4)), NBTTag::Byte(tag::Byte(4)));
    assert_eq!(tag::Long::from(9i64), tag::Long(9));
    assert_eq!(tag::ByteArray::from(vec![1i8, 2]), tag::ByteArray(vec![1, 2]));
    assert_eq!(
        tag::String::from("text".to_string()),
        tag::String::Utf8("text".to_string())
    );
    assert_eq!(tag::Int::try_from(NBTTag::Int(tag::Int(3))), Ok(tag::Int(3)));
    assert_eq!(
        tag::Int::try_from(NBTTag::Byte(tag::Byte(3))),
        Err(NBTTag::Byte(tag::Byte(3)))
    );
    let mut list: tag::List = vec![NBTTag::Byte(tag::Byte(1))].into();
    assert_eq!(list.len(), 1);
    list.push(NBTTag::Byte(tag::Byte(2)));
    assert_eq!(list[1], NBTTag::Byte(tag::Byte(2)));
    assert_eq!(list.iter().count(), 2);
    let mut long = tag::Long(5);
    *long += 1;
    assert_eq!(*long, 6);
    assert_eq!(tag::IntArray(vec![7, 8]).len(), 2);
}

use nbt_codec::encoding::BigEndian;
use nbt_codec::encoding::LittleEndian;
use nbt_codec::encoding::NetworkLittleEndian;
use nbt_codec::err;
use nbt_codec::reader::Reader;
use nbt_codec::tag;
use nbt_codec::writer::Writer;
use nbt_codec::NBTTag;

fn sample() -> NBTTag {
    let nbt = tag::Compound::builder()
        .with_long("test", 10)
        .with_byte("test1", 100)
        .with_short("test2", 1)
        .with_list(
            "test3",
            tag::List(vec![
                NBTTag::ByteArray(tag::ByteArray(vec![1, 2, 3])),
                NBTTag::ByteArray(tag::ByteArray(vec![4, 5, 6])),
            ]),
        )
        .with_list(
            "test4",
            tag::List(vec![NBTTag::Byte(tag::Byte(1)), NBTTag::Byte(tag::Byte(3))]),
        )
        .with("test5", NBTTag::Compound(tag::Compound::default()));
    NBTTag::Compound(nbt.build())
}

fn round_trip<T: Reader + Writer>() {
    let nbt = sample();
    let mut buf = vec![];
    nbt.write::<T>(&mut buf).unwrap();

    assert_eq!(NBTTag::read::<T>(&mut buf.as_slice()).unwrap(), nbt);
}

#[test]
fn test_big_endian() {
    round_trip::<BigEndian>();
}

#[test]
fn test_little_endian() {
    round_trip::<LittleEndian>();
}

#[test]
fn test_network_little_endian() {
    round_trip::<NetworkLittleEndian>();
}

#[test]
fn test_invalid_tagtype() {
    let valid_buf: Vec<u8> = vec![0x03, 0x00, 0x01, 0x61, 0x12, 0x34, 0x56, 0x78];
    let nbt = NBTTag::read::<BigEndian>(&mut valid_buf.as_slice()).unwrap();
    assert!(matches!(nbt, NBTTag::Int(tag::Int(0x12345678))));

    let invalid_buf: Vec<u8> = vec![0x15, 0x00, 0x01, 0x61, 0x12, 0x34, 0x56, 0x78];
    let nbt = NBTTag::read::<BigEndian>(&mut invalid_buf.as_slice());
    assert!(matches!(
        nbt.map_err(|e| *e.boxed),
        Err(err::InnerNBTError {
            inner: err::ReadError::UnknownTagType(0x15),
            path: _
        })
    ))
}

#[test]
fn test_modified_utf8() {
    let normal_string = vec![0x08, 0x00, 0x00, 0x00, 0x04, 0x6e, 0x61, 0x6d, 0x65];
    let nbt = NBTTag::read::<BigEndian>(&mut normal_string.as_slice()).unwrap();
    assert!(matches!(&nbt, NBTTag::String(tag::String::Utf8(x)) if x == "name"));
    let mut buf = vec![];
    nbt.write::<BigEndian>(&mut buf).unwrap();
    assert_eq!(normal_string, buf);

    let null_encoded_string = vec![0x08, 0x00, 0x00, 0x00, 0x04, 0xc0, 0x80, 0xc0, 0x80];
    let nbt = NBTTag::read::<BigEndian>(&mut null_encoded_string.as_slice()).unwrap();
    assert!(matches!(&nbt, NBTTag::String(tag::String::Utf8(x)) if x == "\0\0"));
    let mut buf = vec![];
    nbt.write::<BigEndian>(&mut buf).unwrap();
    assert_eq!(null_encoded_string, buf);

    let null_invalid_string = vec![0x08, 0x00, 0x00, 0x00, 0x04, 0x00, 0x00, 0x00, 0x80];
    let nbt = NBTTag::read::<BigEndian>(&mut null_invalid_string.as_slice()).unwrap();
    assert!(matches!(
        &nbt,
        NBTTag::String(tag::String::Bytes(x)) if matches!(x.as_slice(), [0x00, 0x00, 0x00, 0x80])
    ));
    let mut buf = vec![];
    nbt.write::<BigEndian>(&mut buf).unwrap();
    assert_eq!(null_invalid_string, buf);
}

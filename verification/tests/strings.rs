use nbt_codec::encoding::BigEndian;
use nbt_codec::encoding::LittleEndian;
use nbt_codec::encoding::NetworkLittleEndian;
use nbt_codec::err::IoError;
use nbt_codec::err::PathPart;
use nbt_codec::err::ReadError;
use nbt_codec::err::WriteError;
use nbt_codec::reader::Reader;
use nbt_codec::tag;
use nbt_codec::writer::Writer;
use nbt_codec::NBTTag;

fn text(s: &str) -> NBTTag {
    NBTTag::String(tag::String::Utf8(s.to_string()))
}

fn bytes(b: &[u8]) -> NBTTag {
    NBTTag::String(tag::String::Bytes(b.to_vec()))
}

fn survives<T: Reader + Writer>(tag: &NBTTag) {
    let mut buf = vec![];
    tag.write::<T>(&mut buf).unwrap();
    let mut src = buf.as_slice();
    assert_eq!(&NBTTag::read::<T>(&mut src).unwrap(), tag);
    assert!(src.is_empty());
}

#[test]
fn text_survives_in_every_encoding() {
    for s in ["", "name", "a\u{e9}\u{65e5}", "\0\0", "\u{10401}", "x\0y\u{1f600}z"] {
        survives::<BigEndian>(&text(s));
        survives::<LittleEndian>(&text(s));
        survives::<NetworkLittleEndian>(&text(s));
    }
}

#[test]
fn bytes_that_are_not_text_survive_in_every_encoding() {
    for b in [&[0x00u8, 0x00, 0x00, 0x80][..], &[0x80], &[0xed, 0xa0, 0x81], &[0xc0], &[0xe6, 0x97]] {
        survives::<BigEndian>(&bytes(b));
        survives::<LittleEndian>(&bytes(b));
        survives::<NetworkLittleEndian>(&bytes(b));
    }
}

#[test]
fn bytes_that_are_text_come_back_as_text() {
    let mut buf = vec![];
    bytes(b"name").write::<BigEndian>(&mut buf).unwrap();
    assert_eq!(NBTTag::read::<BigEndian>(&mut buf.as_slice()).unwrap(), text("name"));
}

#[test]
fn text_is_written_as_modified_utf8() {
    let mut buf = vec![];
    text("\0").write::<BigEndian>(&mut buf).unwrap();
    assert_eq!(buf, vec![8, 0, 0, 0, 2, 0xc0, 0x80]);
    let mut buf = vec![];
    text("\u{10401}").write::<LittleEndian>(&mut buf).unwrap();
    assert_eq!(buf, vec![8, 0, 0, 6, 0, 0xed, 0xa0, 0x81, 0xed, 0xb0, 0x81]);
    let mut buf = vec![];
    text("a\u{e9}").write::<NetworkLittleEndian>(&mut buf).unwrap();
    assert_eq!(buf, vec![8, 0, 3, 0x61, 0xc3, 0xa9]);
}

#[test]
fn modified_utf8_is_read_as_text() {
    let pair: Vec<u8> = vec![8, 0, 0, 0, 6, 0xed, 0xa0, 0x81, 0xed, 0xb0, 0x81];
    assert_eq!(NBTTag::read::<BigEndian>(&mut pair.as_slice()).unwrap(), text("\u{10401}"));
    let null: Vec<u8> = vec![0, 2, 0xc0, 0x80];
    assert_eq!(BigEndian::string(&mut null.as_slice()).unwrap(), "\0");
}

#[test]
fn string_length_is_a_varint_in_the_network_encoding() {
    let long = "x".repeat(300);
    let mut buf = vec![];
    text(&long).write::<NetworkLittleEndian>(&mut buf).unwrap();
    assert_eq!(&buf[..4], &[8, 0, 0xac, 0x02]);
    assert_eq!(buf.len(), 304);
    assert_eq!(NBTTag::read::<NetworkLittleEndian>(&mut buf.as_slice()).unwrap(), text(&long));
    let raw: Vec<u8> = vec![0x80; 200];
    let mut buf = vec![];
    bytes(&raw).write::<NetworkLittleEndian>(&mut buf).unwrap();
    assert_eq!(&buf[..4], &[8, 0, 0xc8, 0x01]);
    assert_eq!(NBTTag::read::<NetworkLittleEndian>(&mut buf.as_slice()).unwrap(), bytes(&raw));
}

#[test]
fn string_of_the_greatest_length_is_written() {
    let longest = "x".repeat(i16::MAX as usize);
    let mut buf = vec![];
    text(&longest).write::<BigEndian>(&mut buf).unwrap();
    assert_eq!(&buf[..5], &[8, 0, 0, 0x7f, 0xff]);
    assert_eq!(NBTTag::read::<BigEndian>(&mut buf.as_slice()).unwrap(), text(&longest));
}

#[test]
fn string_that_is_too_long_is_refused() {
    let too_long = "x".repeat(i16::MAX as usize + 1);
    let mut buf = vec![];
    let err = tag::String::Utf8(too_long.clone())
        .write_payload::<BigEndian>(&mut buf)
        .unwrap_err();
    assert_eq!(
        err.boxed.inner,
        WriteError::SeqLengthViolation(i16::MAX as usize, i16::MAX as usize + 1)
    );
    assert!(err.boxed.path.0.is_empty());
    assert!(buf.is_empty());
    // The bound is on the Modified UTF-8 form: U+0000 takes two bytes in it.
    let nulls = "\0".repeat(20000);
    let err = text(&nulls).write::<NetworkLittleEndian>(&mut vec![]).unwrap_err();
    assert_eq!(err.boxed.inner, WriteError::SeqLengthViolation(i16::MAX as usize, 40000));
    let raw = vec![0x80u8; 40000];
    let err = bytes(&raw).write::<LittleEndian>(&mut vec![]).unwrap_err();
    assert_eq!(err.boxed.inner, WriteError::SeqLengthViolation(i16::MAX as usize, 40000));
}

#[test]
fn string_with_a_negative_length_is_refused() {
    let negative: Vec<u8> = vec![8, 0, 0, 0xff, 0xfe];
    let mut src = negative.as_slice();
    let err = NBTTag::read::<BigEndian>(&mut src).unwrap_err();
    assert_eq!(err.boxed.inner, ReadError::SeqLengthViolation(i16::MAX as usize, -2));
    assert!(err.boxed.path.0.is_empty());
    assert_eq!(src.len(), 5);
}

#[test]
fn string_with_a_length_above_the_bound_is_refused() {
    // 40000 as a variable-length number, and not a byte of the string.
    let input: Vec<u8> = vec![8, 0, 0xc0, 0xb8, 0x02];
    let mut src = input.as_slice();
    let err = NBTTag::read::<NetworkLittleEndian>(&mut src).unwrap_err();
    assert_eq!(err.boxed.inner, ReadError::SeqLengthViolation(i16::MAX as usize, 40000));
    assert_eq!(src.len(), 5);
    // 2^32 - 1, the greatest length that the prefix can hold.
    let input: Vec<u8> = vec![0xff, 0xff, 0xff, 0xff, 0x0f];
    let err = NetworkLittleEndian::string_len(&mut input.as_slice()).unwrap_err();
    assert_eq!(err.boxed.inner, ReadError::SeqLengthViolation(i16::MAX as usize, -1));
    let input: Vec<u8> = vec![0xff, 0xff, 0x01];
    assert_eq!(NetworkLittleEndian::string_len(&mut input.as_slice()).unwrap(), 32767);
}

#[test]
fn truncated_string_names_the_missing_byte() {
    let short: Vec<u8> = vec![8, 0, 0, 0, 4, 0x6e, 0x61];
    let err = NBTTag::read::<BigEndian>(&mut short.as_slice()).unwrap_err();
    assert_eq!(err.boxed.inner, ReadError::Io(IoError::UnexpectedEof));
    assert_eq!(err.boxed.path.0, vec![PathPart::Element(2)]);
    assert_eq!(err.boxed.path.to_string(), "[2]");
}

#[test]
fn reading_a_string_alone_reports_bytes_that_are_not_text() {
    let invalid: Vec<u8> = vec![0, 4, 0x00, 0x00, 0x00, 0x80];
    let mut src = invalid.as_slice();
    let err = BigEndian::string(&mut src).unwrap_err();
    assert_eq!(err.boxed.inner, ReadError::InvalidString(vec![0x00, 0x00, 0x00, 0x80]));
    assert_eq!(src.len(), 6);
    assert_eq!(
        BigEndian::string_bytes(&mut src).unwrap(),
        vec![0x00, 0x00, 0x00, 0x80]
    );
    assert!(src.is_empty());
}

#[test]
fn root_name_that_is_not_text_fails_the_read() {
    let bad_name: Vec<u8> = vec![1, 0, 1, 0x80, 5];
    let err = NBTTag::read::<BigEndian>(&mut bad_name.as_slice()).unwrap_err();
    assert_eq!(err.boxed.inner, ReadError::InvalidString(vec![0x80]));
}

#[test]
fn lossy_text_replaces_what_is_not_utf8() {
    assert_eq!(tag::String::Utf8("name".to_string()).to_string_lossy(), "name");
    assert_eq!(
        tag::String::Bytes(vec![0x61, 0x80, 0x62]).to_string_lossy(),
        "a\u{fffd}b"
    );
}

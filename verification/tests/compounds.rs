use nbt_codec::encoding::BigEndian;
use nbt_codec::encoding::LittleEndian;
use nbt_codec::encoding::NetworkLittleEndian;
use nbt_codec::err::IoError;
use nbt_codec::err::NBTError;
use nbt_codec::err::Path;
use nbt_codec::err::PathPart;
use nbt_codec::err::ReadError;
use nbt_codec::err::WriteError;
use nbt_codec::reader::Reader;
use nbt_codec::tag;
use nbt_codec::writer::Writer;
use nbt_codec::NBTTag;
use nbt_codec::NBTTagType;

fn byte(x: i8) -> NBTTag {
    NBTTag::Byte(tag::Byte(x))
}

fn nested() -> NBTTag {
    let nbt = tag::Compound::builder()
        .with_long("test", 10)
        .with_byte("test1", 100)
        .with_short("test2", 1)
        .with_list(
            "test3",
            tag::List(vec![
                NBTTag::ByteArray(tag::ByteArray(vec![1, 2, 3])),
                NBTTag::ByteArray(tag::ByteArray(vec![4, 5, 6])),
            ]),
        )
        .with_list("test4", tag::List(vec![byte(1), byte(3)]))
        .with("test5", NBTTag::Compound(tag::Compound::default()));
    NBTTag::Compound(nbt.build())
}

fn read_back<T: Reader + Writer>(tag: &NBTTag) -> NBTTag {
    let mut buf = vec![];
    tag.write::<T>(&mut buf).unwrap();
    let mut src = buf.as_slice();
    let back = NBTTag::read::<T>(&mut src).unwrap();
    assert!(src.is_empty());
    back
}

#[test]
fn compound_is_written_entry_by_entry_and_ended() {
    let tag = NBTTag::Compound(
        tag::Compound::builder().with_byte("a", 5).with_short("bc", 6).build(),
    );
    let mut buf = vec![];
    tag.write::<BigEndian>(&mut buf).unwrap();
    assert_eq!(
        buf,
        vec![10, 0, 0, 1, 0, 1, 0x61, 5, 2, 0, 2, 0x62, 0x63, 0, 6, 0]
    );
    let mut buf = vec![];
    tag.write::<NetworkLittleEndian>(&mut buf).unwrap();
    assert_eq!(buf, vec![10, 0, 1, 1, 0x61, 5, 2, 2, 0x62, 0x63, 6, 0, 0]);
    let mut buf = vec![];
    NBTTag::default().write::<LittleEndian>(&mut buf).unwrap();
    assert_eq!(buf, vec![10, 0, 0, 0]);
}

#[test]
fn nested_compound_is_the_same_in_all_encodings() {
    let tag = nested();
    let big = read_back::<BigEndian>(&tag);
    let little = read_back::<LittleEndian>(&tag);
    let network = read_back::<NetworkLittleEndian>(&tag);
    assert_eq!(big, tag);
    assert_eq!(little, big);
    assert_eq!(network, big);
}

#[test]
fn nested_compound_has_the_known_bytes() {
    let mut buf = vec![];
    nested().write::<BigEndian>(&mut buf).unwrap();
    let expected: Vec<u8> = vec![
        10, 0, 0, // root: compound, empty name
        4, 0, 4, b't', b'e', b's', b't', 0, 0, 0, 0, 0, 0, 0, 10, // test: Long = 10
        1, 0, 5, b't', b'e', b's', b't', b'1', 100, // test1: Byte = 100
        2, 0, 5, b't', b'e', b's', b't', b'2', 0, 1, // test2: Short = 1
        9, 0, 5, b't', b'e', b's', b't', b'3', 7, 0, 0, 0, 2, // test3: List of 2 byte arrays
        0, 0, 0, 3, 1, 2, 3, //
        0, 0, 0, 3, 4, 5, 6, //
        9, 0, 5, b't', b'e', b's', b't', b'4', 1, 0, 0, 0, 2, 1, 3, // test4: List of 2 bytes
        10, 0, 5, b't', b'e', b's', b't', b'5', 0, // test5: empty compound
        0, // end
    ];
    assert_eq!(buf, expected);
}

#[test]
fn later_entry_of_a_name_replaces_the_earlier_one() {
    let input: Vec<u8> = vec![
        10, 0, 0, 1, 0, 1, b'a', 1, 1, 0, 1, b'b', 2, 3, 0, 1, b'a', 0, 0, 0, 9, 0,
    ];
    let back = NBTTag::read::<BigEndian>(&mut input.as_slice()).unwrap();
    let NBTTag::Compound(compound) = &back else {
        panic!("not a compound");
    };
    assert_eq!(compound.len(), 2);
    assert_eq!(compound.get("a"), Some(&NBTTag::Int(tag::Int(9))));
    assert_eq!(compound.get("b"), Some(&byte(2)));
    // The replaced entry keeps its place.
    assert_eq!(compound.0[0].0, "a");
    assert_eq!(compound.0[1].0, "b");
}

#[test]
fn top_level_end_is_an_error() {
    let input: Vec<u8> = vec![0, 0, 0];
    let err = NBTTag::read::<BigEndian>(&mut input.as_slice()).unwrap_err();
    assert_eq!(err.boxed.inner, ReadError::UnknownTagType(0));
    assert!(err.boxed.path.0.is_empty());
    assert_eq!(err.boxed.path.to_string(), "(root)");
}

#[test]
fn compound_without_its_end_is_an_io_error() {
    let input: Vec<u8> = vec![10, 0, 0, 1, 0, 1, b'a', 1];
    let err = NBTTag::read::<BigEndian>(&mut input.as_slice()).unwrap_err();
    assert_eq!(err.boxed.inner, ReadError::Io(IoError::UnexpectedEof));
    assert!(err.boxed.path.0.is_empty());
}

#[test]
fn failure_inside_a_read_entry_is_reported_under_its_name() {
    let input: Vec<u8> = vec![
        10, 0, 0, 10, 0, 3, b'o', b'u', b't', 9, 0, 2, b'i', b'n', 0x15, 0, 0, 0, 1, 0, 0,
    ];
    let err = NBTTag::read::<BigEndian>(&mut input.as_slice()).unwrap_err();
    assert_eq!(err.boxed.inner, ReadError::UnknownTagType(0x15));
    assert_eq!(
        err.boxed.path.0,
        vec![
            PathPart::MapKey("out".to_string()),
            PathPart::MapKey("in".to_string()),
            PathPart::Element(0)
        ]
    );
    assert_eq!(err.boxed.path.to_string(), "out.in[0]");
}

#[test]
fn failure_inside_a_written_entry_is_reported_under_its_name() {
    let mixed = tag::List(vec![byte(1), NBTTag::Long(tag::Long(2))]);
    let inner = tag::Compound::builder().with_byte("ok", 1).with_list("mixed", mixed).build();
    let tag = NBTTag::Compound(tag::Compound::builder().with_compound("inner", inner).build());
    let err = tag.write::<BigEndian>(&mut vec![]).unwrap_err();
    assert_eq!(err.boxed.inner, WriteError::UnexpectedTag(NBTTagType::Byte, NBTTagType::Long));
    assert_eq!(err.boxed.path.to_string(), "inner.mixed[1]");
}

#[test]
fn name_that_is_too_long_is_refused() {
    let name = "k".repeat(40000);
    let tag = NBTTag::Compound(tag::Compound::builder().with_byte(&name, 1).build());
    let mut buf = vec![];
    let err = tag.write::<BigEndian>(&mut buf).unwrap_err();
    assert_eq!(err.boxed.inner, WriteError::SeqLengthViolation(i16::MAX as usize, 40000));
    assert!(err.boxed.path.0.is_empty());
    assert_eq!(buf, vec![10, 0, 0, 1]);
}

#[test]
fn typed_getters_give_only_their_type() {
    let NBTTag::Compound(compound) = nested() else {
        panic!("not a compound");
    };
    assert_eq!(compound.get_long("test"), Some(&tag::Long(10)));
    assert_eq!(compound.get_byte("test1"), Some(&tag::Byte(100)));
    assert_eq!(compound.get_short("test2"), Some(&tag::Short(1)));
    assert_eq!(compound.get_list("test4").map(|l| l.0.len()), Some(2));
    assert!(compound.get_compound("test5").unwrap().is_empty());
    assert_eq!(compound.get_byte("test"), None);
    assert_eq!(compound.get_long("test1"), None);
    assert_eq!(compound.get_int("test"), None);
    assert_eq!(compound.get_float("test"), None);
    assert_eq!(compound.get_double("test"), None);
    assert_eq!(compound.get_string("test"), None);
    assert_eq!(compound.get_byte_array("test3"), None);
    assert_eq!(compound.get_int_array("test"), None);
    assert_eq!(compound.get_long_array("test"), None);
    assert_eq!(compound.get_long("absent"), None);
    assert!(compound.get("absent").is_none());
    assert_eq!(compound.len(), 6);
}

#[test]
fn getters_of_the_other_types_find_their_tags() {
    let compound = tag::Compound::builder()
        .with_int("i", -7)
        .with_float("f", tag::Float(2.5f32.to_bits()))
        .with_double("d", tag::Double(0.1f64.to_bits()))
        .with_string("s", tag::String::Utf8("text".to_string()))
        .with_byte_array("ba", vec![1])
        .with_int_array("ia", vec![2])
        .with_long_array("la", vec![3])
        .build();
    assert_eq!(compound.get_int("i"), Some(&tag::Int(-7)));
    assert_eq!(compound.get_float("f").map(|f| f32::from_bits(f.0)), Some(2.5));
    assert_eq!(compound.get_double("d").map(|d| f64::from_bits(d.0)), Some(0.1));
    assert_eq!(compound.get_string("s"), Some(&tag::String::Utf8("text".to_string())));
    assert_eq!(compound.get_byte_array("ba"), Some(&tag::ByteArray(vec![1])));
    assert_eq!(compound.get_int_array("ia"), Some(&tag::IntArray(vec![2])));
    assert_eq!(compound.get_long_array("la"), Some(&tag::LongArray(vec![3])));
    let tag = NBTTag::Compound(compound);
    assert_eq!(read_back::<BigEndian>(&tag), tag);
    assert_eq!(read_back::<LittleEndian>(&tag), tag);
    assert_eq!(read_back::<NetworkLittleEndian>(&tag), tag);
}

#[test]
fn insert_replaces_in_place_or_appends() {
    let mut compound = tag::Compound::new();
    assert!(compound.is_empty());
    assert_eq!(compound.insert("a".to_string(), byte(1)), None);
    assert_eq!(compound.insert("b".to_string(), byte(2)), None);
    assert_eq!(compound.insert("a".to_string(), byte(3)), Some(byte(1)));
    assert_eq!(compound.len(), 2);
    assert_eq!(compound.0, vec![("a".to_string(), byte(3)), ("b".to_string(), byte(2))]);
}

#[test]
fn overlay_finds_children_of_compounds_only() {
    let tag = nested();
    let view = tag.as_view();
    assert_eq!(view.get("test1").map(|v| v.tag().clone()), Some(byte(100)));
    assert!(view.get("absent").is_none());
    assert!(view.get("test1").unwrap().get("x").is_none());
    assert!(view.get("test5").unwrap().get("x").is_none());
}

#[test]
fn copies_are_equal() {
    let tag = nested();
    assert_eq!(tag.clone(), tag);
    let NBTTag::Compound(compound) = &tag else {
        panic!("not a compound");
    };
    assert_eq!(&compound.clone(), compound);
    let list = compound.get_list("test3").unwrap();
    assert_eq!(&list.clone(), list);
}

#[test]
fn tag_types_and_ids_agree() {
    assert_eq!(byte(1).tag_type(), NBTTagType::Byte);
    assert_eq!(nested().tag_type(), NBTTagType::Compound);
    assert_eq!(tag::List(vec![]).tag_type(), NBTTagType::List);
    assert_eq!(tag::Double(0).tag_type(), NBTTagType::Double);
}

#[test]
fn paths_are_written_out() {
    assert_eq!(Path::default().to_string(), "(root)");
    assert_eq!(Path::from_single(PathPart::Element(12)).to_string(), "[12]");
    assert_eq!(Path::from_single(PathPart::MapKey("key".to_string())).to_string(), "key");
    assert_eq!(PathPart::TupleField(0).to_string(), "0");
    assert_eq!(PathPart::Field("name".to_string()).to_string(), "name");
    assert_eq!(PathPart::Element(1234567890).to_string(), "[1234567890]");
    let err = NBTError::new(ReadError::UnknownTagType(1))
        .prepend(PathPart::Element(3))
        .prepend(PathPart::TupleField(7))
        .prepend(PathPart::Field("b".to_string()))
        .prepend(PathPart::Element(0))
        .prepend(PathPart::MapKey("a".to_string()));
    assert_eq!(err.boxed.path.to_string(), "a[0].b.7[3]");
    let err = NBTError::new_with_path(
        ReadError::UnknownTagType(1),
        Path::from_single(PathPart::Element(1)),
    );
    assert_eq!(err.boxed.path.to_string(), "[1]");
    assert_eq!(err.boxed.inner, ReadError::UnknownTagType(1));
}

#[test]
fn equality_is_of_values_in_their_order() {
    let text = NBTTag::String(tag::String::Utf8("a".to_string()));
    let bytes = NBTTag::String(tag::String::Bytes(vec![0x61]));
    assert_ne!(text, bytes);
    assert!(text.same(&text.clone()));
    assert!(!text.same(&bytes));
    assert_ne!(byte(1), NBTTag::Short(tag::Short(1)));
    assert_ne!(
        NBTTag::IntArray(tag::IntArray(vec![1, 2])),
        NBTTag::IntArray(tag::IntArray(vec![1, 3]))
    );
    assert_ne!(
        NBTTag::LongArray(tag::LongArray(vec![1])),
        NBTTag::LongArray(tag::LongArray(vec![1, 1]))
    );
    assert_eq!(
        NBTTag::ByteArray(tag::ByteArray(vec![-1, 2])),
        NBTTag::ByteArray(tag::ByteArray(vec![-1, 2]))
    );
    let ab = tag::Compound::builder().with_byte("a", 1).with_byte("b", 2).build();
    let ba = tag::Compound::builder().with_byte("b", 2).with_byte("a", 1).build();
    assert_eq!(NBTTag::Compound(ab.clone()), NBTTag::Compound(ab.clone()));
    assert_ne!(NBTTag::Compound(ab), NBTTag::Compound(ba));
    assert_ne!(
        NBTTag::List(tag::List(vec![byte(1), byte(2)])),
        NBTTag::List(tag::List(vec![byte(2), byte(1)]))
    );
    assert_ne!(nested(), NBTTag::default());
}

#[test]
fn writable_tags_are_the_ones_that_are_written() {
    let good = nested();
    assert!(good.is_writable());
    assert!(good.write::<BigEndian>(&mut vec![]).is_ok());
    let mixed = NBTTag::List(tag::List(vec![byte(1), NBTTag::Int(tag::Int(2))]));
    assert!(!mixed.is_writable());
    assert!(mixed.write::<BigEndian>(&mut vec![]).is_err());
    let long_name =
        NBTTag::Compound(tag::Compound::builder().with_byte(&"k".repeat(40000), 1).build());
    assert!(!long_name.is_writable());
    assert!(long_name.write::<NetworkLittleEndian>(&mut vec![]).is_err());
    let long_text = NBTTag::String(tag::String::Utf8("\0".repeat(20000)));
    assert!(!long_text.is_writable());
    let deep = NBTTag::Compound(
        tag::Compound::builder().with_list("l", tag::List(vec![mixed.clone()])).build(),
    );
    assert!(!deep.is_writable());
    assert!(deep.write::<LittleEndian>(&mut vec![]).is_err());
    assert!(NBTTag::String(tag::String::Bytes(vec![0x80; 32767])).is_writable());
    assert!(!NBTTag::String(tag::String::Bytes(vec![0x80; 32768])).is_writable());
}

#[test]
fn faithful_tags_are_the_ones_that_come_back() {
    let good = nested();
    assert!(good.is_faithful());
    assert_eq!(read_back::<BigEndian>(&good), good);
    let text_as_bytes = NBTTag::String(tag::String::Bytes(b"name".to_vec()));
    assert!(!text_as_bytes.is_faithful());
    assert_ne!(read_back::<BigEndian>(&text_as_bytes), text_as_bytes);
    assert!(NBTTag::String(tag::String::Bytes(vec![0x80])).is_faithful());
    assert!(NBTTag::String(tag::String::Utf8("\0\u{10401}".to_string())).is_faithful());
    let twice = NBTTag::Compound(tag::Compound(vec![
        ("a".to_string(), byte(1)),
        ("a".to_string(), byte(2)),
    ]));
    assert!(!twice.is_faithful());
    assert_ne!(read_back::<NetworkLittleEndian>(&twice), twice);
    let inside = NBTTag::List(tag::List(vec![twice.clone()]));
    assert!(!inside.is_faithful());
    let under = NBTTag::Compound(
        tag::Compound::builder().with_string("s", tag::String::Bytes(b"x".to_vec())).build(),
    );
    assert!(!under.is_faithful());
}

//! Named Binary Tag (NBT) trees, and their encoding to and decoding from bytes
//! in three wire encodings.
use crate::format::parse_named_root;
use crate::format::parse_root;
use crate::laws::lemma_parsed_homogeneous;
use crate::laws::lemma_parsed_wf;
use crate::laws::lemma_writable;
use crate::mutf8::encoded;
use crate::model::Entries;
use crate::model::TagModel;
use crate::output::named_root_written;
use crate::output::root_written;
use crate::output::string_len_bytes;
use crate::reader::reads;
use crate::reader::Reader;
use crate::writer::writes;
use crate::writer::Writer;
use vstd::prelude::*;
use vstd::std_specs::cmp::PartialEqSpecImpl;

pub mod convert;
pub mod encoding;
pub mod err;
pub mod format;
pub mod laws;
pub mod model;
pub mod mutf8;
pub mod output;
pub mod payload;
pub mod reader;
pub mod root;
pub mod tag;
pub mod text;
pub mod valid;
pub mod view;
pub mod wire;
pub mod writer;

verus! {

/// A tag of any of the twelve types.
#[derive(Debug)]
pub enum NBTTag {
    /// An 8-bit signed integer.
    Byte(tag::Byte),
    /// A 16-bit signed integer.
    Short(tag::Short),
    /// A 32-bit signed integer.
    Int(tag::Int),
    /// A 64-bit signed integer.
    Long(tag::Long),
    /// A 32-bit floating point number.
    Float(tag::Float),
    /// A 64-bit floating point number.
    Double(tag::Double),
    /// A string of characters.
    String(tag::String),
    /// A map from names to tags.
    Compound(tag::Compound),
    /// A variable-length list of tags of one type.
    List(tag::List),
    /// A variable-length array of 8-bit signed integers.
    ByteArray(tag::ByteArray),
    /// A variable-length array of 32-bit signed integers.
    IntArray(tag::IntArray),
    /// A variable-length array of 64-bit signed integers.
    LongArray(tag::LongArray),
}

/// The twelve types of NBT tag.
#[allow(missing_docs)]
#[derive(Copy, Clone, Debug, Eq, PartialEq, Structural)]
pub enum NBTTagType {
    Byte,
    Short,
    Int,
    Long,
    Float,
    Double,
    String,
    Compound,
    List,
    ByteArray,
    IntArray,
    LongArray,
}

impl View for NBTTag {
    type V = TagModel;

    open spec fn view(&self) -> TagModel
        decreases self,
    {
        match self {
            NBTTag::Byte(v) => TagModel::Byte(v.0),
            NBTTag::Short(v) => TagModel::Short(v.0),
            NBTTag::Int(v) => TagModel::Int(v.0),
            NBTTag::Long(v) => TagModel::Long(v.0),
            NBTTag::Float(v) => TagModel::Float(v.0),
            NBTTag::Double(v) => TagModel::Double(v.0),
            NBTTag::String(v) => TagModel::String(v.text()),
            NBTTag::Compound(v) => TagModel::Compound(entries_of(v.0@)),
            NBTTag::List(v) => TagModel::List(items_of(v.0@)),
            NBTTag::ByteArray(v) => TagModel::ByteArray(v.0@),
            NBTTag::IntArray(v) => TagModel::IntArray(v.0@),
            NBTTag::LongArray(v) => TagModel::LongArray(v.0@),
        }
    }
}

/// The values of a sequence of tags.
pub open spec fn items_of(tags: Seq<NBTTag>) -> Seq<TagModel>
    decreases tags,
{
    if tags.len() == 0 {
        Seq::empty()
    } else {
        items_of(tags.drop_last()).push(tags.last()@)
    }
}

/// The values of a sequence of named tags.
pub open spec fn entries_of(pairs: Seq<(String, NBTTag)>) -> Entries
    decreases pairs,
{
    if pairs.len() == 0 {
        Seq::empty()
    } else {
        entries_of(pairs.drop_last()).push((pairs.last().0@, pairs.last().1@))
    }
}

/// The values of a sequence of tags are the values of its tags, one by one.
pub proof fn lemma_items_of(tags: Seq<NBTTag>)
    ensures
        items_of(tags).len() == tags.len(),
        forall|i: int| 0 <= i < tags.len() ==> (#[trigger] items_of(tags)[i]) == tags[i]@,
    decreases tags.len(),
{
    if tags.len() > 0 {
        lemma_items_of(tags.drop_last());
        assert(items_of(tags) == items_of(tags.drop_last()).push(tags.last()@));
    } else {
        assert(items_of(tags) == Seq::<TagModel>::empty());
    }
}

/// The values of a sequence of named tags are the values of its pairs, one by one.
pub proof fn lemma_entries_of(pairs: Seq<(String, NBTTag)>)
    ensures
        entries_of(pairs).len() == pairs.len(),
        forall|i: int|
            0 <= i < pairs.len() ==> (#[trigger] entries_of(pairs)[i]) == (pairs[i].0@, pairs[i].1@),
    decreases pairs.len(),
{
    if pairs.len() > 0 {
        lemma_entries_of(pairs.drop_last());
        assert(entries_of(pairs) == entries_of(pairs.drop_last()).push(
            (pairs.last().0@, pairs.last().1@),
        ));
    } else {
        assert(entries_of(pairs) == Seq::<(Seq<char>, TagModel)>::empty());
    }
}

/// Whether two sequences of bytes are the same.
fn same_u8s(a: &Vec<u8>, b: &Vec<u8>) -> (r: bool)
    ensures
        r == (a@ == b@),
{
    if a.len() != b.len() {
        return false;
    }
    let mut i: usize = 0;
    while i < a.len()
        invariant
            0 <= i <= a.len(),
            a.len() == b.len(),
            forall|k: int| 0 <= k < i ==> a@[k] == b@[k],
        decreases a.len() - i,
    {
        if a[i] != b[i] {
            return false;
        }
        i += 1;
    }
    assert(a@ =~= b@);
    true
}

/// Whether two sequences of 8-bit integers are the same.
fn same_i8s(a: &Vec<i8>, b: &Vec<i8>) -> (r: bool)
    ensures
        r == (a@ == b@),
{
    if a.len() != b.len() {
        return false;
    }
    let mut i: usize = 0;
    while i < a.len()
        invariant
            0 <= i <= a.len(),
            a.len() == b.len(),
            forall|k: int| 0 <= k < i ==> a@[k] == b@[k],
        decreases a.len() - i,
    {
        if a[i] != b[i] {
            return false;
        }
        i += 1;
    }
    assert(a@ =~= b@);
    true
}

/// Whether two sequences of 32-bit integers are the same.
fn same_i32s(a: &Vec<i32>, b: &Vec<i32>) -> (r: bool)
    ensures
        r == (a@ == b@),
{
    if a.len() != b.len() {
        return false;
    }
    let mut i: usize = 0;
    while i < a.len()
        invariant
            0 <= i <= a.len(),
            a.len() == b.len(),
            forall|k: int| 0 <= k < i ==> a@[k] == b@[k],
        decreases a.len() - i,
    {
        if a[i] != b[i] {
            return false;
        }
        i += 1;
    }
    assert(a@ =~= b@);
    true
}

/// Whether two sequences of 64-bit integers are the same.
fn same_i64s(a: &Vec<i64>, b: &Vec<i64>) -> (r: bool)
    ensures
        r == (a@ == b@),
{
    if a.len() != b.len() {
        return false;
    }
    let mut i: usize = 0;
    while i < a.len()
        invariant
            0 <= i <= a.len(),
            a.len() == b.len(),
            forall|k: int| 0 <= k < i ==> a@[k] == b@[k],
        decreases a.len() - i,
    {
        if a[i] != b[i] {
            return false;
        }
        i += 1;
    }
    assert(a@ =~= b@);
    true
}

/// Whether two sequences of tags are of the same values.
fn same_tags(a: &Vec<NBTTag>, b: &Vec<NBTTag>) -> (r: bool)
    ensures
        r == (items_of(a@) == items_of(b@)),
    decreases a,
{
    proof {
        lemma_items_of(a@);
        lemma_items_of(b@);
    }
    if a.len() != b.len() {
        return false;
    }
    let mut i: usize = 0;
    while i < a.len()
        invariant
            0 <= i <= a.len(),
            a.len() == b.len(),
            items_of(a@).len() == a.len(),
            items_of(b@).len() == b.len(),
            forall|k: int| 0 <= k < a.len() ==> (#[trigger] items_of(a@)[k]) == a@[k]@,
            forall|k: int| 0 <= k < b.len() ==> (#[trigger] items_of(b@)[k]) == b@[k]@,
            forall|k: int| 0 <= k < i ==> a@[k]@ == b@[k]@,
        decreases a.len() - i,
    {
        if !a[i].same(&b[i]) {
            assert(items_of(a@)[i as int] != items_of(b@)[i as int]);
            return false;
        }
        i += 1;
    }
    assert(items_of(a@) =~= items_of(b@));
    true
}

/// Whether two sequences of named tags are of the same names and values.
fn same_entries(a: &Vec<(String, NBTTag)>, b: &Vec<(String, NBTTag)>) -> (r: bool)
    ensures
        r == (entries_of(a@) == entries_of(b@)),
    decreases a,
{
    proof {
        lemma_entries_of(a@);
        lemma_entries_of(b@);
    }
    if a.len() != b.len() {
        return false;
    }
    let mut i: usize = 0;
    while i < a.len()
        invariant
            0 <= i <= a.len(),
            a.len() == b.len(),
            entries_of(a@).len() == a.len(),
            entries_of(b@).len() == b.len(),
            forall|k: int|
                0 <= k < a.len() ==> (#[trigger] entries_of(a@)[k]) == (a@[k].0@, a@[k].1@),
            forall|k: int|
                0 <= k < b.len() ==> (#[trigger] entries_of(b@)[k]) == (b@[k].0@, b@[k].1@),
            forall|k: int| 0 <= k < i ==> a@[k].0@ == b@[k].0@ && a@[k].1@ == b@[k].1@,
        decreases a.len() - i,
    {
        if a[i].0 != b[i].0 || !a[i].1.same(&b[i].1) {
            assert(entries_of(a@)[i as int] != entries_of(b@)[i as int]);
            return false;
        }
        i += 1;
    }
    assert(entries_of(a@) =~= entries_of(b@));
    true
}

impl NBTTag {
    /// Whether two tags are of the same value: of the same type, and holding
    /// the same numbers, the same text or bytes, the same tags in the same
    /// order, the same names with the same tags in the same order.
    pub fn same(&self, other: &NBTTag) -> (r: bool)
        ensures
            r == (self@ == other@),
        decreases self,
    {
        match (self, other) {
            (NBTTag::Byte(a), NBTTag::Byte(b)) => a.0 == b.0,
            (NBTTag::Short(a), NBTTag::Short(b)) => a.0 == b.0,
            (NBTTag::Int(a), NBTTag::Int(b)) => a.0 == b.0,
            (NBTTag::Long(a), NBTTag::Long(b)) => a.0 == b.0,
            (NBTTag::Float(a), NBTTag::Float(b)) => a.0 == b.0,
            (NBTTag::Double(a), NBTTag::Double(b)) => a.0 == b.0,
            (NBTTag::String(tag::String::Utf8(a)), NBTTag::String(tag::String::Utf8(b))) => *a
                == *b,
            (NBTTag::String(tag::String::Bytes(a)), NBTTag::String(tag::String::Bytes(b))) => {
                same_u8s(a, b)
            },
            (NBTTag::Compound(a), NBTTag::Compound(b)) => same_entries(&a.0, &b.0),
            (NBTTag::List(a), NBTTag::List(b)) => same_tags(&a.0, &b.0),
            (NBTTag::ByteArray(a), NBTTag::ByteArray(b)) => same_i8s(&a.0, &b.0),
            (NBTTag::IntArray(a), NBTTag::IntArray(b)) => same_i32s(&a.0, &b.0),
            (NBTTag::LongArray(a), NBTTag::LongArray(b)) => same_i64s(&a.0, &b.0),
            _ => false,
        }
    }
}

impl PartialEq for NBTTag {
    /// Two tags are equal where they are of the same value.
    fn eq(&self, other: &Self) -> (r: bool) {
        self.same(other)
    }
}

impl PartialEqSpecImpl for NBTTag {
    open spec fn obeys_eq_spec() -> bool {
        true
    }

    open spec fn eq_spec(&self, other: &Self) -> bool {
        self@ == other@
    }
}

/// Copies a sequence of tags.
fn clone_tags(tags: &Vec<NBTTag>) -> (copy: Vec<NBTTag>)
    ensures
        items_of(copy@) == items_of(tags@),
    decreases tags,
{
    let mut copy: Vec<NBTTag> = Vec::with_capacity(tags.len());
    let mut i: usize = 0;
    while i < tags.len()
        invariant
            0 <= i <= tags.len(),
            copy@.len() == i,
            forall|k: int| 0 <= k < i ==> (#[trigger] copy@[k])@ == tags@[k]@,
        decreases tags.len() - i,
    {
        let item = tags[i].clone();
        copy.push(item);
        i += 1;
    }
    proof {
        lemma_items_of(tags@);
        lemma_items_of(copy@);
        assert(items_of(copy@) =~= items_of(tags@));
    }
    copy
}

/// Copies a sequence of named tags.
fn clone_entries(pairs: &Vec<(String, NBTTag)>) -> (copy: Vec<(String, NBTTag)>)
    ensures
        entries_of(copy@) == entries_of(pairs@),
    decreases pairs,
{
    let mut copy: Vec<(String, NBTTag)> = Vec::with_capacity(pairs.len());
    let mut i: usize = 0;
    while i < pairs.len()
        invariant
            0 <= i <= pairs.len(),
            copy@.len() == i,
            forall|k: int|
                0 <= k < i ==> (#[trigger] copy@[k]).0@ == pairs@[k].0@ && copy@[k].1@
                    == pairs@[k].1@,
        decreases pairs.len() - i,
    {
        let name = pairs[i].0.clone();
        let value = pairs[i].1.clone();
        copy.push((name, value));
        i += 1;
    }
    proof {
        lemma_entries_of(pairs@);
        lemma_entries_of(copy@);
        assert(entries_of(copy@) =~= entries_of(pairs@));
    }
    copy
}

impl Clone for NBTTag {
    /// Copies the tag with all that it holds.
    fn clone(&self) -> (copy: Self)
        ensures
            copy@ == self@,
        decreases self,
    {
        match self {
            NBTTag::Byte(v) => NBTTag::Byte(tag::Byte(v.0)),
            NBTTag::Short(v) => NBTTag::Short(tag::Short(v.0)),
            NBTTag::Int(v) => NBTTag::Int(tag::Int(v.0)),
            NBTTag::Long(v) => NBTTag::Long(tag::Long(v.0)),
            NBTTag::Float(v) => NBTTag::Float(tag::Float(v.0)),
            NBTTag::Double(v) => NBTTag::Double(tag::Double(v.0)),
            NBTTag::String(v) => NBTTag::String(v.clone()),
            NBTTag::Compound(v) => NBTTag::Compound(tag::Compound(clone_entries(&v.0))),
            NBTTag::List(v) => NBTTag::List(tag::List(clone_tags(&v.0))),
            NBTTag::ByteArray(v) => NBTTag::ByteArray(v.clone()),
            NBTTag::IntArray(v) => NBTTag::IntArray(v.clone()),
            NBTTag::LongArray(v) => NBTTag::LongArray(v.clone()),
        }
    }
}

impl Clone for tag::List {
    /// Copies the list with all that it holds.
    fn clone(&self) -> (copy: Self)
        ensures
            copy@ == self@,
    {
        tag::List(clone_tags(&self.0))
    }
}

impl Clone for tag::Compound {
    /// Copies the compound with all that it holds.
    fn clone(&self) -> (copy: Self)
        ensures
            copy@ == self@,
    {
        tag::Compound(clone_entries(&self.0))
    }
}

impl Default for NBTTag {
    /// A compound without entries.
    fn default() -> (t: Self)
        ensures
            t@ == TagModel::Compound(Seq::empty()),
    {
        NBTTag::Compound(tag::Compound::new())
    }
}

impl NBTTag {
    /// The type of the tag.
    pub fn tag_type(&self) -> (t: NBTTagType)
        ensures
            t == self@.tag_type(),
    {
        match self {
            NBTTag::Byte(_) => NBTTagType::Byte,
            NBTTag::Short(_) => NBTTagType::Short,
            NBTTag::Int(_) => NBTTagType::Int,
            NBTTag::Long(_) => NBTTagType::Long,
            NBTTag::Float(_) => NBTTagType::Float,
            NBTTag::Double(_) => NBTTagType::Double,
            NBTTag::String(_) => NBTTagType::String,
            NBTTag::Compound(_) => NBTTagType::Compound,
            NBTTag::List(_) => NBTTagType::List,
            NBTTag::ByteArray(_) => NBTTagType::ByteArray,
            NBTTag::IntArray(_) => NBTTagType::IntArray,
            NBTTag::LongArray(_) => NBTTagType::LongArray,
        }
    }

    /// Sees the tag for reading.
    pub fn as_view(&self) -> (view: view::TagView<'_>)
        ensures
            view.value() == self@,
    {
        view::TagView::new(self)
    }

    /// Reads a root from the source: the byte that names its type, its name,
    /// which is dropped, and its payload.
    ///
    /// What is read, and which failure stops the reading, is what
    /// [`parse_root`] says of the bytes in the source. After a failure the
    /// source is as it was. In what is read no compound holds a name twice,
    /// and every list holds tags of one type.
    pub fn read<R: Reader>(buf: &mut &[u8]) -> (r: reader::Res<Self>)
        ensures
            reads(r, old(buf)@, final(buf)@, parse_root(R::encoding(), old(buf)@)),
            r matches Ok(tag) ==> tag@.wf() && tag@.homogeneous(),
    {
        let mut cur: &[u8] = *buf;
        let tag_id = match R::u8(&mut cur) {
            Ok(id) => id,
            Err(err) => {
                return Err(err);
            },
        };
        match R::string(&mut cur) {
            Ok(_) => {},
            Err(err) => {
                return Err(err);
            },
        }
        proof {
            lemma_parsed_wf(R::encoding(), tag_id, cur@);
            lemma_parsed_homogeneous(R::encoding(), tag_id, cur@);
        }
        match Self::read_payload::<R>(tag_id, &mut cur) {
            Ok(tag) => {
                *buf = cur;
                Ok(tag)
            },
            Err(err) => Err(err),
        }
    }

    /// Reads a root from the source and keeps its name: the byte that names
    /// its type, its name, and its payload.
    ///
    /// What is read, and which failure stops the reading, is what
    /// [`parse_named_root`] says of the bytes in the source. After a failure
    /// the source is as it was.
    pub fn read_named<R: Reader>(buf: &mut &[u8]) -> (r: reader::Res<(String, Self)>)
        ensures
            reads(r, old(buf)@, final(buf)@, parse_named_root(R::encoding(), old(buf)@)),
            r matches Ok(named) ==> named.1@.wf() && named.1@.homogeneous(),
    {
        let mut cur: &[u8] = *buf;
        let tag_id = match R::u8(&mut cur) {
            Ok(id) => id,
            Err(err) => {
                return Err(err);
            },
        };
        let name = match R::string(&mut cur) {
            Ok(name) => name,
            Err(err) => {
                return Err(err);
            },
        };
        proof {
            lemma_parsed_wf(R::encoding(), tag_id, cur@);
            lemma_parsed_homogeneous(R::encoding(), tag_id, cur@);
        }
        match Self::read_payload::<R>(tag_id, &mut cur) {
            Ok(tag) => {
                *buf = cur;
                Ok((name, tag))
            },
            Err(err) => Err(err),
        }
    }

    /// Writes the tag to the sink as a root under a name: the byte that names
    /// its type, the name, and its payload.
    ///
    /// What is written, and which failure stops the writing, is what
    /// [`named_root_written`] says of the name and the tag. After a failure
    /// the sink holds what was written before it.
    pub fn write_named<W: Writer>(&self, name: &str, buf: &mut Vec<u8>) -> (r: writer::Res)
        ensures
            writes(r, old(buf)@, final(buf)@, named_root_written(W::encoding(), name@, self@)),
            r is Ok <==> encoded(name@).len() <= 0x7fff && self@.writable(),
    {
        proof {
            lemma_writable(W::encoding(), self@);
        }
        match W::write_u8(buf, self.tag_id()) {
            Ok(_) => {},
            Err(err) => {
                return Err(err);
            },
        }
        match W::write_string(buf, name) {
            Ok(_) => {},
            Err(err) => {
                return Err(err);
            },
        }
        let r = self.write_payload::<W>(buf);
        assert(buf@ =~= old(buf)@ + named_root_written(W::encoding(), name@, self@).bytes);
        r
    }

    /// Writes the tag to the sink as a root: the byte that names its type,
    /// the empty name, and its payload.
    ///
    /// What is written, and which failure stops the writing, is what
    /// [`root_written`] says of the tag. After a failure the sink holds what
    /// was written before it. The writing succeeds exactly where the tag is
    /// [writable](TagModel::writable).
    pub fn write<W: Writer>(&self, buf: &mut Vec<u8>) -> (r: writer::Res)
        ensures
            writes(r, old(buf)@, final(buf)@, root_written(W::encoding(), self@)),
            r is Ok <==> self@.writable(),
    {
        proof {
            lemma_writable(W::encoding(), self@);
        }
        match W::write_u8(buf, self.tag_id()) {
            Ok(_) => {},
            Err(err) => {
                return Err(err);
            },
        }
        proof {
            reveal_strlit("");
        }
        match W::write_string(buf, "") {
            Ok(_) => {},
            Err(err) => {
                return Err(err);
            },
        }
        let ghost head = buf@;
        assert(head =~= old(buf)@ + (seq![self@.id()] + string_len_bytes(W::encoding(), 0)));
        let r = self.write_payload::<W>(buf);
        assert(buf@ =~= old(buf)@ + root_written(W::encoding(), self@).bytes);
        r
    }

    /// The byte that names the tag's type on the wire.
    pub fn tag_id(&self) -> (id: u8)
        ensures
            id == self@.id(),
    {
        match self {
            NBTTag::Byte(_) => 1,
            NBTTag::Short(_) => 2,
            NBTTag::Int(_) => 3,
            NBTTag::Long(_) => 4,
            NBTTag::Float(_) => 5,
            NBTTag::Double(_) => 6,
            NBTTag::String(_) => 8,
            NBTTag::Compound(_) => 10,
            NBTTag::List(_) => 9,
            NBTTag::ByteArray(_) => 7,
            NBTTag::IntArray(_) => 11,
            NBTTag::LongArray(_) => 12,
        }
    }
}

} // verus!

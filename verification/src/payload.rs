//! Writing and reading the payload of each type of tag.
use crate::err::Failure;
use crate::err::NBTError;
use crate::err::Path;
use crate::err::PathPart;
use crate::err::PathStep;
use crate::err::ReadFault;
use crate::err::WriteError;
use crate::err::ReadError;
use crate::format::lemma_numbers_shrink;
use crate::format::lemma_parse_items_step;
use crate::format::lemma_payload_shrinks;
use crate::format::lemma_string_shrinks;
use crate::format::parse_entries;
use crate::format::parse_items;
use crate::format::parse_payload;
use crate::format::parse_seq_len;
use crate::format::parse_u8;
use crate::format::with_front;
use crate::items_of;
use crate::model::TagModel;
use crate::mutf8::from_java_cesu8;
use crate::reader::reserve;
use crate::lemma_entries_of;
use crate::lemma_items_of;
use crate::output::entries_written;
use crate::output::entry_written;
use crate::output::item_written;
use crate::output::items_written;
use crate::output::lemma_entries_written_stops;
use crate::output::lemma_items_written_stops;
use crate::output::payload_written;
use crate::reader;
use crate::reader::reads;
use crate::reader::Reader;
use crate::tag;
use crate::writer;
use crate::writer::writes;
use crate::writer::Writer;
use crate::NBTTag;
use vstd::prelude::*;

verus! {

impl tag::Byte {
    /// Writes the payload: one byte.
    pub fn write_payload<W: Writer>(&self, buf: &mut Vec<u8>) -> (r: writer::Res)
        ensures
            writes(r, old(buf)@, final(buf)@, payload_written(W::encoding(), self@)),
    {
        W::write_i8(buf, self.0)
    }
}

impl tag::Short {
    /// Writes the payload: a 16-bit signed integer.
    pub fn write_payload<W: Writer>(&self, buf: &mut Vec<u8>) -> (r: writer::Res)
        ensures
            writes(r, old(buf)@, final(buf)@, payload_written(W::encoding(), self@)),
    {
        W::write_i16(buf, self.0)
    }
}

impl tag::Int {
    /// Writes the payload: a 32-bit signed integer.
    pub fn write_payload<W: Writer>(&self, buf: &mut Vec<u8>) -> (r: writer::Res)
        ensures
            writes(r, old(buf)@, final(buf)@, payload_written(W::encoding(), self@)),
    {
        W::write_i32(buf, self.0)
    }
}

impl tag::Long {
    /// Writes the payload: a 64-bit signed integer.
    pub fn write_payload<W: Writer>(&self, buf: &mut Vec<u8>) -> (r: writer::Res)
        ensures
            writes(r, old(buf)@, final(buf)@, payload_written(W::encoding(), self@)),
    {
        W::write_i64(buf, self.0)
    }
}

impl tag::Float {
    /// Writes the payload: the four bytes of the bit pattern.
    pub fn write_payload<W: Writer>(&self, buf: &mut Vec<u8>) -> (r: writer::Res)
        ensures
            writes(r, old(buf)@, final(buf)@, payload_written(W::encoding(), self@)),
    {
        W::write_f32(buf, self.0)
    }
}

impl tag::Double {
    /// Writes the payload: the eight bytes of the bit pattern.
    pub fn write_payload<W: Writer>(&self, buf: &mut Vec<u8>) -> (r: writer::Res)
        ensures
            writes(r, old(buf)@, final(buf)@, payload_written(W::encoding(), self@)),
    {
        W::write_f64(buf, self.0)
    }
}

impl tag::String {
    /// Writes the payload: the length and the bytes, which for text are its
    /// Modified UTF-8 form. Fails where there are more than [`i16::MAX`] bytes.
    pub fn write_payload<W: Writer>(&self, buf: &mut Vec<u8>) -> (r: writer::Res)
        ensures
            writes(r, old(buf)@, final(buf)@, payload_written(W::encoding(), self@)),
    {
        match self {
            tag::String::Utf8(x) => W::write_string(buf, x.as_str()),
            tag::String::Bytes(x) => W::write_string_bytes(buf, x.as_slice()),
        }
    }
}

impl tag::ByteArray {
    /// Writes the payload: the length and the bytes.
    pub fn write_payload<W: Writer>(&self, buf: &mut Vec<u8>) -> (r: writer::Res)
        ensures
            writes(r, old(buf)@, final(buf)@, payload_written(W::encoding(), self@)),
    {
        W::write_i8_vec(buf, self.0.as_slice())
    }
}

impl tag::IntArray {
    /// Writes the payload: the length and the integers.
    pub fn write_payload<W: Writer>(&self, buf: &mut Vec<u8>) -> (r: writer::Res)
        ensures
            writes(r, old(buf)@, final(buf)@, payload_written(W::encoding(), self@)),
    {
        W::write_i32_vec(buf, self.0.as_slice())
    }
}

impl tag::LongArray {
    /// Writes the payload: the length and the integers.
    pub fn write_payload<W: Writer>(&self, buf: &mut Vec<u8>) -> (r: writer::Res)
        ensures
            writes(r, old(buf)@, final(buf)@, payload_written(W::encoding(), self@)),
    {
        W::write_i64_vec(buf, self.0.as_slice())
    }
}

impl tag::List {
    /// Writes the payload: the type of the first element (zero for a list
    /// without elements), the length, and the payload of each element.
    ///
    /// Fails where the list has more than [`i32::MAX`] elements, and at the
    /// first element whose type is not that of the first.
    pub fn write_payload<W: Writer>(&self, buf: &mut Vec<u8>) -> (r: writer::Res)
        ensures
            writes(r, old(buf)@, final(buf)@, payload_written(W::encoding(), self@)),
        decreases self,
    {
        let ghost e = W::encoding();
        let ghost items = self.items();
        proof {
            lemma_items_of(self.0@);
        }
        let n = self.0.len();
        if n > 0x7fff_ffff {
            assert(buf@ =~= old(buf)@ + Seq::<u8>::empty());
            return Err(NBTError::new(WriteError::SeqLengthViolation(0x7fff_ffff, n)));
        }
        let first_id = if n == 0 {
            0
        } else {
            self.0[0].tag_id()
        };
        match W::write_u8(buf, first_id) {
            Ok(_) => {},
            Err(err) => {
                return Err(err);
            },
        }
        match W::write_seq_len(buf, n) {
            Ok(_) => {},
            Err(err) => {
                return Err(err);
            },
        }
        let ghost head = buf@;
        assert(head =~= old(buf)@ + (seq![first_id] + crate::output::seq_len_bytes(e, n as int)));
        let mut i: usize = 0;
        while i < n
            invariant
                0 <= i <= n,
                n == self.0.len(),
                n <= 0x7fff_ffff,
                e == W::encoding(),
                items == self.items(),
                items.len() == n,
                forall|k: int| 0 <= k < n ==> (#[trigger] items[k]) == self.0[k]@,
                n > 0 ==> first_id == items[0].id(),
                head == old(buf)@ + (seq![first_id] + crate::output::seq_len_bytes(e, n as int)),
                first_id == crate::output::list_id(items),
                items_written(e, items, i as nat).failure is None,
                buf@ == head + items_written(e, items, i as nat).bytes,
            decreases n - i,
        {
            let v = &self.0[i];
            if v.tag_id() != first_id {
                let err = NBTError::new_with_path(
                    WriteError::UnexpectedTag(self.0[0].tag_type(), v.tag_type()),
                    Path::from_single(PathPart::Element(i)),
                );
                proof {
                    assert(seq![PathStep::Element(i)] + Seq::<PathStep>::empty() =~= seq![
                        PathStep::Element(i),
                    ]);
                    let part = item_written(e, items, i as int);
                    assert(part.failure == Some(err@));
                    assert(items_written(e, items, (i + 1) as nat) == items_written(
                        e,
                        items,
                        i as nat,
                    ).followed_by(part));
                    lemma_items_written_stops(e, items, (i + 1) as nat, n as nat);
                    assert(buf@ =~= old(buf)@ + payload_written(e, self@).bytes);
                }
                return Err(err);
            }
            match v.write_payload::<W>(buf) {
                Ok(_) => {
                    proof {
                        let part = item_written(e, items, i as int);
                        assert(items_written(e, items, (i + 1) as nat) == items_written(
                            e,
                            items,
                            i as nat,
                        ).followed_by(part));
                        assert(buf@ =~= head + items_written(e, items, (i + 1) as nat).bytes);
                    }
                },
                Err(err) => {
                    let err = err.prepend(PathPart::Element(i));
                    proof {
                        let part = item_written(e, items, i as int);
                        assert(part.failure == Some(err@));
                        assert(items_written(e, items, (i + 1) as nat) == items_written(
                            e,
                            items,
                            i as nat,
                        ).followed_by(part));
                        lemma_items_written_stops(e, items, (i + 1) as nat, n as nat);
                        assert(buf@ =~= old(buf)@ + payload_written(e, self@).bytes);
                    }
                    return Err(err);
                },
            }
            i += 1;
        }
        assert(buf@ =~= old(buf)@ + payload_written(e, self@).bytes);
        Ok(())
    }
}

impl tag::Compound {
    /// Writes the payload: each entry as the type of its tag, its name and
    /// the tag's payload, and then the byte that ends the compound.
    pub fn write_payload<W: Writer>(&self, buf: &mut Vec<u8>) -> (r: writer::Res)
        ensures
            writes(r, old(buf)@, final(buf)@, payload_written(W::encoding(), self@)),
        decreases self,
    {
        let ghost e = W::encoding();
        let ghost entries = self.entries();
        proof {
            lemma_entries_of(self.0@);
        }
        let n = self.0.len();
        let mut i: usize = 0;
        assert(buf@ =~= old(buf)@ + entries_written(e, entries, 0).bytes);
        while i < n
            invariant
                0 <= i <= n,
                n == self.0.len(),
                e == W::encoding(),
                entries == self.entries(),
                entries.len() == n,
                forall|k: int|
                    0 <= k < n ==> (#[trigger] entries[k]) == (self.0[k].0@, self.0[k].1@),
                entries_written(e, entries, i as nat).failure is None,
                buf@ == old(buf)@ + entries_written(e, entries, i as nat).bytes,
            decreases n - i,
        {
            let name = &self.0[i].0;
            let val = &self.0[i].1;
            let ghost part = entry_written(e, entries, i as int);
            proof {
                assert(entries_written(e, entries, (i + 1) as nat) == entries_written(
                    e,
                    entries,
                    i as nat,
                ).followed_by(part));
                assert(entries[i as int] == (name@, val@));
            }
            match W::write_u8(buf, val.tag_id()) {
                Ok(_) => {},
                Err(err) => {
                    return Err(err);
                },
            }
            match W::write_string(buf, name.as_str()) {
                Ok(_) => {},
                Err(err) => {
                    proof {
                        assert(part.failure == Some(err@));
                        lemma_entries_written_stops(e, entries, (i + 1) as nat, n as nat);
                        assert(buf@ =~= old(buf)@ + payload_written(e, self@).bytes);
                    }
                    return Err(err);
                },
            }
            match val.write_payload::<W>(buf) {
                Ok(_) => {
                    assert(buf@ =~= old(buf)@ + entries_written(e, entries, (i + 1) as nat).bytes);
                },
                Err(err) => {
                    let err = err.prepend(PathPart::MapKey(name.clone()));
                    proof {
                        assert(part.failure == Some(err@));
                        lemma_entries_written_stops(e, entries, (i + 1) as nat, n as nat);
                        assert(buf@ =~= old(buf)@ + payload_written(e, self@).bytes);
                    }
                    return Err(err);
                },
            }
            i += 1;
        }
        match W::write_end(buf) {
            Ok(_) => {},
            Err(err) => {
                return Err(err);
            },
        }
        assert(buf@ =~= old(buf)@ + payload_written(e, self@).bytes);
        Ok(())
    }
}

impl NBTTag {
    /// Writes the payload of the tag: what follows its type and its name.
    /// The writing succeeds exactly where the tag is
    /// [writable](TagModel::writable).
    pub fn write_payload<W: Writer>(&self, buf: &mut Vec<u8>) -> (r: writer::Res)
        ensures
            writes(r, old(buf)@, final(buf)@, payload_written(W::encoding(), self@)),
            r is Ok <==> self@.writable(),
        decreases self,
    {
        proof {
            crate::laws::lemma_writable(W::encoding(), self@);
        }
        match self {
            NBTTag::Byte(tag) => tag.write_payload::<W>(buf),
            NBTTag::Short(tag) => tag.write_payload::<W>(buf),
            NBTTag::Int(tag) => tag.write_payload::<W>(buf),
            NBTTag::Long(tag) => tag.write_payload::<W>(buf),
            NBTTag::Float(tag) => tag.write_payload::<W>(buf),
            NBTTag::Double(tag) => tag.write_payload::<W>(buf),
            NBTTag::String(tag) => tag.write_payload::<W>(buf),
            NBTTag::Compound(tag) => tag.write_payload::<W>(buf),
            NBTTag::List(tag) => tag.write_payload::<W>(buf),
            NBTTag::ByteArray(tag) => tag.write_payload::<W>(buf),
            NBTTag::IntArray(tag) => tag.write_payload::<W>(buf),
            NBTTag::LongArray(tag) => tag.write_payload::<W>(buf),
        }
    }
}

impl tag::Byte {
    /// Reads the payload: one byte.
    pub fn read_payload<R: Reader>(buf: &mut &[u8]) -> (r: reader::Res<Self>)
        ensures
            reads(r, old(buf)@, final(buf)@, parse_payload(R::encoding(), 1, old(buf)@)),
    {
        match R::i8(buf) {
            Ok(v) => Ok(tag::Byte(v)),
            Err(err) => Err(err),
        }
    }
}

impl tag::Short {
    /// Reads the payload: a 16-bit signed integer.
    pub fn read_payload<R: Reader>(buf: &mut &[u8]) -> (r: reader::Res<Self>)
        ensures
            reads(r, old(buf)@, final(buf)@, parse_payload(R::encoding(), 2, old(buf)@)),
    {
        match R::i16(buf) {
            Ok(v) => Ok(tag::Short(v)),
            Err(err) => Err(err),
        }
    }
}

impl tag::Int {
    /// Reads the payload: a 32-bit signed integer.
    pub fn read_payload<R: Reader>(buf: &mut &[u8]) -> (r: reader::Res<Self>)
        ensures
            reads(r, old(buf)@, final(buf)@, parse_payload(R::encoding(), 3, old(buf)@)),
    {
        match R::i32(buf) {
            Ok(v) => Ok(tag::Int(v)),
            Err(err) => Err(err),
        }
    }
}

impl tag::Long {
    /// Reads the payload: a 64-bit signed integer.
    pub fn read_payload<R: Reader>(buf: &mut &[u8]) -> (r: reader::Res<Self>)
        ensures
            reads(r, old(buf)@, final(buf)@, parse_payload(R::encoding(), 4, old(buf)@)),
    {
        match R::i64(buf) {
            Ok(v) => Ok(tag::Long(v)),
            Err(err) => Err(err),
        }
    }
}

impl tag::Float {
    /// Reads the payload: the four bytes of a bit pattern.
    pub fn read_payload<R: Reader>(buf: &mut &[u8]) -> (r: reader::Res<Self>)
        ensures
            reads(r, old(buf)@, final(buf)@, parse_payload(R::encoding(), 5, old(buf)@)),
    {
        match R::f32_bits(buf) {
            Ok(v) => Ok(tag::Float(v)),
            Err(err) => Err(err),
        }
    }
}

impl tag::Double {
    /// Reads the payload: the eight bytes of a bit pattern.
    pub fn read_payload<R: Reader>(buf: &mut &[u8]) -> (r: reader::Res<Self>)
        ensures
            reads(r, old(buf)@, final(buf)@, parse_payload(R::encoding(), 6, old(buf)@)),
    {
        match R::f64_bits(buf) {
            Ok(v) => Ok(tag::Double(v)),
            Err(err) => Err(err),
        }
    }
}

impl tag::String {
    /// Reads the payload: the length and the bytes. Bytes that are Modified
    /// UTF-8 give text; others are kept as they are.
    pub fn read_payload<R: Reader>(buf: &mut &[u8]) -> (r: reader::Res<Self>)
        ensures
            reads(r, old(buf)@, final(buf)@, parse_payload(R::encoding(), 8, old(buf)@)),
    {
        match R::string_bytes(buf) {
            Ok(bytes) => match from_java_cesu8(bytes.as_slice()) {
                Ok(text) => Ok(tag::String::Utf8(text)),
                Err(_) => Ok(tag::String::Bytes(bytes)),
            },
            Err(err) => Err(err),
        }
    }
}

impl tag::ByteArray {
    /// Reads the payload: the length and the bytes.
    pub fn read_payload<R: Reader>(buf: &mut &[u8]) -> (r: reader::Res<Self>)
        ensures
            reads(r, old(buf)@, final(buf)@, parse_payload(R::encoding(), 7, old(buf)@)),
    {
        match R::i8_vec(buf) {
            Ok(v) => Ok(tag::ByteArray(v)),
            Err(err) => Err(err),
        }
    }
}

impl tag::IntArray {
    /// Reads the payload: the length and the integers.
    pub fn read_payload<R: Reader>(buf: &mut &[u8]) -> (r: reader::Res<Self>)
        ensures
            reads(r, old(buf)@, final(buf)@, parse_payload(R::encoding(), 11, old(buf)@)),
    {
        match R::i32_vec(buf) {
            Ok(v) => Ok(tag::IntArray(v)),
            Err(err) => Err(err),
        }
    }
}

impl tag::LongArray {
    /// Reads the payload: the length and the integers.
    pub fn read_payload<R: Reader>(buf: &mut &[u8]) -> (r: reader::Res<Self>)
        ensures
            reads(r, old(buf)@, final(buf)@, parse_payload(R::encoding(), 12, old(buf)@)),
    {
        match R::i64_vec(buf) {
            Ok(v) => Ok(tag::LongArray(v)),
            Err(err) => Err(err),
        }
    }
}

impl tag::List {
    /// Reads the payload: the type of the elements, their number, and that
    /// many payloads of that type.
    ///
    /// A failure inside an element is reported under the element's number.
    pub fn read_payload<R: Reader>(buf: &mut &[u8]) -> (r: reader::Res<Self>)
        ensures
            reads(r, old(buf)@, final(buf)@, parse_payload(R::encoding(), 9, old(buf)@)),
        decreases old(buf)@.len(), 0nat,
    {
        let ghost e = R::encoding();
        let mut cur: &[u8] = *buf;
        let content_type = match R::u8(&mut cur) {
            Ok(id) => id,
            Err(err) => {
                return Err(err);
            },
        };
        let ghost after_id = cur@;
        let len = match R::seq_len(&mut cur) {
            Ok(len) => len,
            Err(err) => {
                return Err(err);
            },
        };
        let ghost start = cur@;
        proof {
            lemma_numbers_shrink(e, after_id);
        }
        let mut vec: Vec<NBTTag> = Vec::with_capacity(reserve(len));
        let mut i: usize = 0;
        proof {
            match parse_items(e, content_type, start, len as nat, 0) {
                Ok((items, _)) => {
                    assert(Seq::<TagModel>::empty() + items =~= items);
                },
                Err(_) => {},
            }
        }
        while i < len
            invariant
                0 <= i <= len,
                e == R::encoding(),
                buf@ == old(buf)@,
                parse_u8(old(buf)@) == Ok::<_, Failure<ReadFault>>((content_type, after_id)),
                parse_seq_len(e, after_id) == Ok::<_, Failure<ReadFault>>((len, start)),
                start.len() < old(buf)@.len(),
                cur@.len() <= start.len(),
                with_front(
                    items_of(vec@),
                    parse_items(e, content_type, cur@, (len - i) as nat, i as nat),
                ) == parse_items(e, content_type, start, len as nat, 0),
            decreases len - i,
        {
            proof {
                lemma_parse_items_step(
                    e,
                    content_type,
                    cur@,
                    (len - i) as nat,
                    i as nat,
                    items_of(vec@),
                );
                lemma_payload_shrinks(e, content_type, cur@);
            }
            let ghost before = vec@;
            match NBTTag::read_payload::<R>(content_type, &mut cur) {
                Ok(tag) => {
                    vec.push(tag);
                    assert(vec@.drop_last() =~= before);
                },
                Err(err) => {
                    return Err(err.prepend(PathPart::Element(i)));
                },
            }
            i += 1;
        }
        proof {
            assert(items_of(vec@) + Seq::<TagModel>::empty() =~= items_of(vec@));
        }
        *buf = cur;
        Ok(tag::List(vec))
    }
}

impl tag::Compound {
    /// Reads the payload: entries of type, name and payload, up to the byte
    /// that ends the compound. Of two entries of one name the later one stays,
    /// in the place of the earlier one.
    ///
    /// A failure inside the payload of an entry is reported under its name.
    pub fn read_payload<R: Reader>(buf: &mut &[u8]) -> (r: reader::Res<Self>)
        ensures
            reads(r, old(buf)@, final(buf)@, parse_payload(R::encoding(), 10, old(buf)@)),
        decreases old(buf)@.len(), 0nat,
    {
        let ghost e = R::encoding();
        let mut cur: &[u8] = *buf;
        let mut map = tag::Compound::new();
        loop
            invariant_except_break
                parse_entries(e, cur@, map.entries()) == parse_entries(
                    e,
                    old(buf)@,
                    Seq::empty(),
                ),
            invariant
                e == R::encoding(),
                buf@ == old(buf)@,
                cur@.len() <= old(buf)@.len(),
            ensures
                parse_entries(e, old(buf)@, Seq::empty()) == Ok::<_, Failure<ReadFault>>(
                    (map.entries(), cur@),
                ),
            decreases cur@.len(),
        {
            let content_type = match R::u8(&mut cur) {
                Ok(id) => id,
                Err(err) => {
                    return Err(err);
                },
            };
            if content_type == 0 {
                break ;
            }
            proof {
                lemma_string_shrinks(e, cur@);
            }
            let name = match R::string(&mut cur) {
                Ok(name) => name,
                Err(err) => {
                    return Err(err);
                },
            };
            proof {
                lemma_payload_shrinks(e, content_type, cur@);
            }
            let value = match NBTTag::read_payload::<R>(content_type, &mut cur) {
                Ok(value) => value,
                Err(err) => {
                    return Err(err.prepend(PathPart::MapKey(name.clone())));
                },
            };
            map.insert(name, value);
        }
        *buf = cur;
        Ok(map)
    }
}

impl NBTTag {
    /// Reads the payload of a tag of the type that `tag_id` names. Fails with
    /// [`ReadError::UnknownTagType`] where it names none.
    pub fn read_payload<R: Reader>(tag_id: u8, buf: &mut &[u8]) -> (r: reader::Res<Self>)
        ensures
            reads(r, old(buf)@, final(buf)@, parse_payload(R::encoding(), tag_id, old(buf)@)),
        decreases old(buf)@.len(), 1nat,
    {
        match tag_id {
            1 => match tag::Byte::read_payload::<R>(buf) {
                Ok(v) => Ok(NBTTag::Byte(v)),
                Err(err) => Err(err),
            },
            2 => match tag::Short::read_payload::<R>(buf) {
                Ok(v) => Ok(NBTTag::Short(v)),
                Err(err) => Err(err),
            },
            3 => match tag::Int::read_payload::<R>(buf) {
                Ok(v) => Ok(NBTTag::Int(v)),
                Err(err) => Err(err),
            },
            4 => match tag::Long::read_payload::<R>(buf) {
                Ok(v) => Ok(NBTTag::Long(v)),
                Err(err) => Err(err),
            },
            5 => match tag::Float::read_payload::<R>(buf) {
                Ok(v) => Ok(NBTTag::Float(v)),
                Err(err) => Err(err),
            },
            6 => match tag::Double::read_payload::<R>(buf) {
                Ok(v) => Ok(NBTTag::Double(v)),
                Err(err) => Err(err),
            },
            8 => match tag::String::read_payload::<R>(buf) {
                Ok(v) => Ok(NBTTag::String(v)),
                Err(err) => Err(err),
            },
            10 => match tag::Compound::read_payload::<R>(buf) {
                Ok(v) => Ok(NBTTag::Compound(v)),
                Err(err) => Err(err),
            },
            9 => match tag::List::read_payload::<R>(buf) {
                Ok(v) => Ok(NBTTag::List(v)),
                Err(err) => Err(err),
            },
            7 => match tag::ByteArray::read_payload::<R>(buf) {
                Ok(v) => Ok(NBTTag::ByteArray(v)),
                Err(err) => Err(err),
            },
            11 => match tag::IntArray::read_payload::<R>(buf) {
                Ok(v) => Ok(NBTTag::IntArray(v)),
                Err(err) => Err(err),
            },
            12 => match tag::LongArray::read_payload::<R>(buf) {
                Ok(v) => Ok(NBTTag::LongArray(v)),
                Err(err) => Err(err),
            },
            other => Err(NBTError::new(ReadError::UnknownTagType(other))),
        }
    }
}

} // verus!

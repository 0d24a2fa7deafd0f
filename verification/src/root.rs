//! Reading and writing a tag of a known type as a root.
use crate::err::NBTError;
use crate::err::ReadError;
use crate::format::parse_root_of;
use crate::output::root_written;
use crate::output::string_len_bytes;
use crate::reader;
use crate::reader::reads;
use crate::reader::Reader;
use crate::tag;
use crate::writer;
use crate::writer::writes;
use crate::writer::Writer;
use crate::NBTTagType;
use vstd::prelude::*;

verus! {

/// Reads the head of a root that has to be of the type that `want` names:
/// the byte that names its type, and its name, which is dropped.
fn read_head<R: Reader>(buf: &mut &[u8], want: u8) -> (r: reader::Res<()>)
    ensures
        match crate::format::parse_u8(old(buf)@) {
            Err(f) => r matches Err(err) && err@ == f && final(buf)@ == old(buf)@,
            Ok((id, after_id)) => if id != want {
                r matches Err(err) && err@ == crate::format::at_root(
                    crate::err::ReadFault::UnexpectedTag(want, id),
                ) && final(buf)@ == old(buf)@
            } else {
                match crate::format::parse_string(R::encoding(), after_id) {
                    Err(f) => r matches Err(err) && err@ == f && final(buf)@ == old(buf)@,
                    Ok((_, after_name)) => r is Ok && final(buf)@ == after_name,
                }
            },
        },
{
    let mut cur: &[u8] = *buf;
    let tag_id = match R::u8(&mut cur) {
        Ok(id) => id,
        Err(err) => {
            return Err(err);
        },
    };
    if tag_id != want {
        return Err(NBTError::new(ReadError::UnexpectedTag(want, tag_id)));
    }
    match R::string(&mut cur) {
        Ok(_) => {},
        Err(err) => {
            return Err(err);
        },
    }
    *buf = cur;
    Ok(())
}

/// Writes the head of a root: the byte that names its type, and the empty name.
fn write_head<W: Writer>(buf: &mut Vec<u8>, id: u8) -> (r: writer::Res)
    ensures
        r is Ok,
        final(buf)@ == old(buf)@ + (seq![id] + string_len_bytes(W::encoding(), 0)),
{
    match W::write_u8(buf, id) {
        Ok(_) => {},
        Err(err) => {
            return Err(err);
        },
    }
    proof {
        reveal_strlit("");
    }
    let r = W::write_string(buf, "");
    assert(buf@ =~= old(buf)@ + (seq![id] + string_len_bytes(W::encoding(), 0)));
    r
}

impl tag::Byte {
    /// The type of the tag.
    #[inline]
    pub fn tag_type(&self) -> (t: NBTTagType)
        ensures
            t == NBTTagType::Byte,
            t == self@.tag_type(),
    {
        NBTTagType::Byte
    }

    /// Reads a root that has to be a byte tag. Fails with
    /// [`ReadError::UnexpectedTag`] where the root is of another type.
    pub fn read<R: Reader>(buf: &mut &[u8]) -> (r: reader::Res<Self>)
        ensures
            reads(r, old(buf)@, final(buf)@, parse_root_of(R::encoding(), 1, old(buf)@)),
    {
        let mut cur: &[u8] = *buf;
        match read_head::<R>(&mut cur, 1) {
            Ok(_) => {},
            Err(err) => {
                return Err(err);
            },
        }
        match Self::read_payload::<R>(&mut cur) {
            Ok(tag) => {
                *buf = cur;
                Ok(tag)
            },
            Err(err) => Err(err),
        }
    }

    /// Writes the tag as a root: the byte that names its type, the empty
    /// name, and its payload.
    pub fn write<W: Writer>(&self, buf: &mut Vec<u8>) -> (r: writer::Res)
        ensures
            writes(r, old(buf)@, final(buf)@, root_written(W::encoding(), self@)),
            r is Ok <==> self@.writable(),
    {
        proof {
            crate::laws::lemma_writable(W::encoding(), self@);
        }
        match write_head::<W>(buf, 1) {
            Ok(_) => {},
            Err(err) => {
                return Err(err);
            },
        }
        let r = self.write_payload::<W>(buf);
        assert(buf@ =~= old(buf)@ + root_written(W::encoding(), self@).bytes);
        r
    }
}

impl tag::Short {
    /// The type of the tag.
    #[inline]
    pub fn tag_type(&self) -> (t: NBTTagType)
        ensures
            t == NBTTagType::Short,
            t == self@.tag_type(),
    {
        NBTTagType::Short
    }

    /// Reads a root that has to be a short tag. Fails with
    /// [`ReadError::UnexpectedTag`] where the root is of another type.
    pub fn read<R: Reader>(buf: &mut &[u8]) -> (r: reader::Res<Self>)
        ensures
            reads(r, old(buf)@, final(buf)@, parse_root_of(R::encoding(), 2, old(buf)@)),
    {
        let mut cur: &[u8] = *buf;
        match read_head::<R>(&mut cur, 2) {
            Ok(_) => {},
            Err(err) => {
                return Err(err);
            },
        }
        match Self::read_payload::<R>(&mut cur) {
            Ok(tag) => {
                *buf = cur;
                Ok(tag)
            },
            Err(err) => Err(err),
        }
    }

    /// Writes the tag as a root: the byte that names its type, the empty
    /// name, and its payload.
    pub fn write<W: Writer>(&self, buf: &mut Vec<u8>) -> (r: writer::Res)
        ensures
            writes(r, old(buf)@, final(buf)@, root_written(W::encoding(), self@)),
            r is Ok <==> self@.writable(),
    {
        proof {
            crate::laws::lemma_writable(W::encoding(), self@);
        }
        match write_head::<W>(buf, 2) {
            Ok(_) => {},
            Err(err) => {
                return Err(err);
            },
        }
        let r = self.write_payload::<W>(buf);
        assert(buf@ =~= old(buf)@ + root_written(W::encoding(), self@).bytes);
        r
    }
}

impl tag::Int {
    /// The type of the tag.
    #[inline]
    pub fn tag_type(&self) -> (t: NBTTagType)
        ensures
            t == NBTTagType::Int,
            t == self@.tag_type(),
    {
        NBTTagType::Int
    }

    /// Reads a root that has to be an int tag. Fails with
    /// [`ReadError::UnexpectedTag`] where the root is of another type.
    pub fn read<R: Reader>(buf: &mut &[u8]) -> (r: reader::Res<Self>)
        ensures
            reads(r, old(buf)@, final(buf)@, parse_root_of(R::encoding(), 3, old(buf)@)),
    {
        let mut cur: &[u8] = *buf;
        match read_head::<R>(&mut cur, 3) {
            Ok(_) => {},
            Err(err) => {
                return Err(err);
            },
        }
        match Self::read_payload::<R>(&mut cur) {
            Ok(tag) => {
                *buf = cur;
                Ok(tag)
            },
            Err(err) => Err(err),
        }
    }

    /// Writes the tag as a root: the byte that names its type, the empty
    /// name, and its payload.
    pub fn write<W: Writer>(&self, buf: &mut Vec<u8>) -> (r: writer::Res)
        ensures
            writes(r, old(buf)@, final(buf)@, root_written(W::encoding(), self@)),
            r is Ok <==> self@.writable(),
    {
        proof {
            crate::laws::lemma_writable(W::encoding(), self@);
        }
        match write_head::<W>(buf, 3) {
            Ok(_) => {},
            Err(err) => {
                return Err(err);
            },
        }
        let r = self.write_payload::<W>(buf);
        assert(buf@ =~= old(buf)@ + root_written(W::encoding(), self@).bytes);
        r
    }
}

impl tag::Long {
    /// The type of the tag.
    #[inline]
    pub fn tag_type(&self) -> (t: NBTTagType)
        ensures
            t == NBTTagType::Long,
            t == self@.tag_type(),
    {
        NBTTagType::Long
    }

    /// Reads a root that has to be a long tag. Fails with
    /// [`ReadError::UnexpectedTag`] where the root is of another type.
    pub fn read<R: Reader>(buf: &mut &[u8]) -> (r: reader::Res<Self>)
        ensures
            reads(r, old(buf)@, final(buf)@, parse_root_of(R::encoding(), 4, old(buf)@)),
    {
        let mut cur: &[u8] = *buf;
        match read_head::<R>(&mut cur, 4) {
            Ok(_) => {},
            Err(err) => {
                return Err(err);
            },
        }
        match Self::read_payload::<R>(&mut cur) {
            Ok(tag) => {
                *buf = cur;
                Ok(tag)
            },
            Err(err) => Err(err),
        }
    }

    /// Writes the tag as a root: the byte that names its type, the empty
    /// name, and its payload.
    pub fn write<W: Writer>(&self, buf: &mut Vec<u8>) -> (r: writer::Res)
        ensures
            writes(r, old(buf)@, final(buf)@, root_written(W::encoding(), self@)),
            r is Ok <==> self@.writable(),
    {
        proof {
            crate::laws::lemma_writable(W::encoding(), self@);
        }
        match write_head::<W>(buf, 4) {
            Ok(_) => {},
            Err(err) => {
                return Err(err);
            },
        }
        let r = self.write_payload::<W>(buf);
        assert(buf@ =~= old(buf)@ + root_written(W::encoding(), self@).bytes);
        r
    }
}

impl tag::Float {
    /// The type of the tag.
    #[inline]
    pub fn tag_type(&self) -> (t: NBTTagType)
        ensures
            t == NBTTagType::Float,
            t == self@.tag_type(),
    {
        NBTTagType::Float
    }

    /// Reads a root that has to be a float tag. Fails with
    /// [`ReadError::UnexpectedTag`] where the root is of another type.
    pub fn read<R: Reader>(buf: &mut &[u8]) -> (r: reader::Res<Self>)
        ensures
            reads(r, old(buf)@, final(buf)@, parse_root_of(R::encoding(), 5, old(buf)@)),
    {
        let mut cur: &[u8] = *buf;
        match read_head::<R>(&mut cur, 5) {
            Ok(_) => {},
            Err(err) => {
                return Err(err);
            },
        }
        match Self::read_payload::<R>(&mut cur) {
            Ok(tag) => {
                *buf = cur;
                Ok(tag)
            },
            Err(err) => Err(err),
        }
    }

    /// Writes the tag as a root: the byte that names its type, the empty
    /// name, and its payload.
    pub fn write<W: Writer>(&self, buf: &mut Vec<u8>) -> (r: writer::Res)
        ensures
            writes(r, old(buf)@, final(buf)@, root_written(W::encoding(), self@)),
            r is Ok <==> self@.writable(),
    {
        proof {
            crate::laws::lemma_writable(W::encoding(), self@);
        }
        match write_head::<W>(buf, 5) {
            Ok(_) => {},
            Err(err) => {
                return Err(err);
            },
        }
        let r = self.write_payload::<W>(buf);
        assert(buf@ =~= old(buf)@ + root_written(W::encoding(), self@).bytes);
        r
    }
}

impl tag::Double {
    /// The type of the tag.
    #[inline]
    pub fn tag_type(&self) -> (t: NBTTagType)
        ensures
            t == NBTTagType::Double,
            t == self@.tag_type(),
    {
        NBTTagType::Double
    }

    /// Reads a root that has to be a double tag. Fails with
    /// [`ReadError::UnexpectedTag`] where the root is of another type.
    pub fn read<R: Reader>(buf: &mut &[u8]) -> (r: reader::Res<Self>)
        ensures
            reads(r, old(buf)@, final(buf)@, parse_root_of(R::encoding(), 6, old(buf)@)),
    {
        let mut cur: &[u8] = *buf;
        match read_head::<R>(&mut cur, 6) {
            Ok(_) => {},
            Err(err) => {
                return Err(err);
            },
        }
        match Self::read_payload::<R>(&mut cur) {
            Ok(tag) => {
                *buf = cur;
                Ok(tag)
            },
            Err(err) => Err(err),
        }
    }

    /// Writes the tag as a root: the byte that names its type, the empty
    /// name, and its payload.
    pub fn write<W: Writer>(&self, buf: &mut Vec<u8>) -> (r: writer::Res)
        ensures
            writes(r, old(buf)@, final(buf)@, root_written(W::encoding(), self@)),
            r is Ok <==> self@.writable(),
    {
        proof {
            crate::laws::lemma_writable(W::encoding(), self@);
        }
        match write_head::<W>(buf, 6) {
            Ok(_) => {},
            Err(err) => {
                return Err(err);
            },
        }
        let r = self.write_payload::<W>(buf);
        assert(buf@ =~= old(buf)@ + root_written(W::encoding(), self@).bytes);
        r
    }
}

impl tag::String {
    /// The type of the tag.
    #[inline]
    pub fn tag_type(&self) -> (t: NBTTagType)
        ensures
            t == NBTTagType::String,
            t == self@.tag_type(),
    {
        NBTTagType::String
    }

    /// Reads a root that has to be a string tag. Fails with
    /// [`ReadError::UnexpectedTag`] where the root is of another type.
    pub fn read<R: Reader>(buf: &mut &[u8]) -> (r: reader::Res<Self>)
        ensures
            reads(r, old(buf)@, final(buf)@, parse_root_of(R::encoding(), 8, old(buf)@)),
    {
        let mut cur: &[u8] = *buf;
        match read_head::<R>(&mut cur, 8) {
            Ok(_) => {},
            Err(err) => {
                return Err(err);
            },
        }
        match Self::read_payload::<R>(&mut cur) {
            Ok(tag) => {
                *buf = cur;
                Ok(tag)
            },
            Err(err) => Err(err),
        }
    }

    /// Writes the tag as a root: the byte that names its type, the empty
    /// name, and its payload.
    pub fn write<W: Writer>(&self, buf: &mut Vec<u8>) -> (r: writer::Res)
        ensures
            writes(r, old(buf)@, final(buf)@, root_written(W::encoding(), self@)),
            r is Ok <==> self@.writable(),
    {
        proof {
            crate::laws::lemma_writable(W::encoding(), self@);
        }
        match write_head::<W>(buf, 8) {
            Ok(_) => {},
            Err(err) => {
                return Err(err);
            },
        }
        let r = self.write_payload::<W>(buf);
        assert(buf@ =~= old(buf)@ + root_written(W::encoding(), self@).bytes);
        r
    }
}

impl tag::Compound {
    /// The type of the tag.
    #[inline]
    pub fn tag_type(&self) -> (t: NBTTagType)
        ensures
            t == NBTTagType::Compound,
            t == self@.tag_type(),
    {
        NBTTagType::Compound
    }

    /// Reads a root that has to be a compound tag. Fails with
    /// [`ReadError::UnexpectedTag`] where the root is of another type.
    pub fn read<R: Reader>(buf: &mut &[u8]) -> (r: reader::Res<Self>)
        ensures
            reads(r, old(buf)@, final(buf)@, parse_root_of(R::encoding(), 10, old(buf)@)),
    {
        let mut cur: &[u8] = *buf;
        match read_head::<R>(&mut cur, 10) {
            Ok(_) => {},
            Err(err) => {
                return Err(err);
            },
        }
        match Self::read_payload::<R>(&mut cur) {
            Ok(tag) => {
                *buf = cur;
                Ok(tag)
            },
            Err(err) => Err(err),
        }
    }

    /// Writes the tag as a root: the byte that names its type, the empty
    /// name, and its payload.
    pub fn write<W: Writer>(&self, buf: &mut Vec<u8>) -> (r: writer::Res)
        ensures
            writes(r, old(buf)@, final(buf)@, root_written(W::encoding(), self@)),
            r is Ok <==> self@.writable(),
    {
        proof {
            crate::laws::lemma_writable(W::encoding(), self@);
        }
        match write_head::<W>(buf, 10) {
            Ok(_) => {},
            Err(err) => {
                return Err(err);
            },
        }
        let r = self.write_payload::<W>(buf);
        assert(buf@ =~= old(buf)@ + root_written(W::encoding(), self@).bytes);
        r
    }
}

impl tag::List {
    /// The type of the tag.
    #[inline]
    pub fn tag_type(&self) -> (t: NBTTagType)
        ensures
            t == NBTTagType::List,
            t == self@.tag_type(),
    {
        NBTTagType::List
    }

    /// Reads a root that has to be a list tag. Fails with
    /// [`ReadError::UnexpectedTag`] where the root is of another type.
    pub fn read<R: Reader>(buf: &mut &[u8]) -> (r: reader::Res<Self>)
        ensures
            reads(r, old(buf)@, final(buf)@, parse_root_of(R::encoding(), 9, old(buf)@)),
    {
        let mut cur: &[u8] = *buf;
        match read_head::<R>(&mut cur, 9) {
            Ok(_) => {},
            Err(err) => {
                return Err(err);
            },
        }
        match Self::read_payload::<R>(&mut cur) {
            Ok(tag) => {
                *buf = cur;
                Ok(tag)
            },
            Err(err) => Err(err),
        }
    }

    /// Writes the tag as a root: the byte that names its type, the empty
    /// name, and its payload.
    pub fn write<W: Writer>(&self, buf: &mut Vec<u8>) -> (r: writer::Res)
        ensures
            writes(r, old(buf)@, final(buf)@, root_written(W::encoding(), self@)),
            r is Ok <==> self@.writable(),
    {
        proof {
            crate::laws::lemma_writable(W::encoding(), self@);
        }
        match write_head::<W>(buf, 9) {
            Ok(_) => {},
            Err(err) => {
                return Err(err);
            },
        }
        let r = self.write_payload::<W>(buf);
        assert(buf@ =~= old(buf)@ + root_written(W::encoding(), self@).bytes);
        r
    }
}

impl tag::ByteArray {
    /// The type of the tag.
    #[inline]
    pub fn tag_type(&self) -> (t: NBTTagType)
        ensures
            t == NBTTagType::ByteArray,
            t == self@.tag_type(),
    {
        NBTTagType::ByteArray
    }

    /// Reads a root that has to be a byte array tag. Fails with
    /// [`ReadError::UnexpectedTag`] where the root is of another type.
    pub fn read<R: Reader>(buf: &mut &[u8]) -> (r: reader::Res<Self>)
        ensures
            reads(r, old(buf)@, final(buf)@, parse_root_of(R::encoding(), 7, old(buf)@)),
    {
        let mut cur: &[u8] = *buf;
        match read_head::<R>(&mut cur, 7) {
            Ok(_) => {},
            Err(err) => {
                return Err(err);
            },
        }
        match Self::read_payload::<R>(&mut cur) {
            Ok(tag) => {
                *buf = cur;
                Ok(tag)
            },
            Err(err) => Err(err),
        }
    }

    /// Writes the tag as a root: the byte that names its type, the empty
    /// name, and its payload.
    pub fn write<W: Writer>(&self, buf: &mut Vec<u8>) -> (r: writer::Res)
        ensures
            writes(r, old(buf)@, final(buf)@, root_written(W::encoding(), self@)),
            r is Ok <==> self@.writable(),
    {
        proof {
            crate::laws::lemma_writable(W::encoding(), self@);
        }
        match write_head::<W>(buf, 7) {
            Ok(_) => {},
            Err(err) => {
                return Err(err);
            },
        }
        let r = self.write_payload::<W>(buf);
        assert(buf@ =~= old(buf)@ + root_written(W::encoding(), self@).bytes);
        r
    }
}

impl tag::IntArray {
    /// The type of the tag.
    #[inline]
    pub fn tag_type(&self) -> (t: NBTTagType)
        ensures
            t == NBTTagType::IntArray,
            t == self@.tag_type(),
    {
        NBTTagType::IntArray
    }

    /// Reads a root that has to be an int array tag. Fails with
    /// [`ReadError::UnexpectedTag`] where the root is of another type.
    pub fn read<R: Reader>(buf: &mut &[u8]) -> (r: reader::Res<Self>)
        ensures
            reads(r, old(buf)@, final(buf)@, parse_root_of(R::encoding(), 11, old(buf)@)),
    {
        let mut cur: &[u8] = *buf;
        match read_head::<R>(&mut cur, 11) {
            Ok(_) => {},
            Err(err) => {
                return Err(err);
            },
        }
        match Self::read_payload::<R>(&mut cur) {
            Ok(tag) => {
                *buf = cur;
                Ok(tag)
            },
            Err(err) => Err(err),
        }
    }

    /// Writes the tag as a root: the byte that names its type, the empty
    /// name, and its payload.
    pub fn write<W: Writer>(&self, buf: &mut Vec<u8>) -> (r: writer::Res)
        ensures
            writes(r, old(buf)@, final(buf)@, root_written(W::encoding(), self@)),
            r is Ok <==> self@.writable(),
    {
        proof {
            crate::laws::lemma_writable(W::encoding(), self@);
        }
        match write_head::<W>(buf, 11) {
            Ok(_) => {},
            Err(err) => {
                return Err(err);
            },
        }
        let r = self.write_payload::<W>(buf);
        assert(buf@ =~= old(buf)@ + root_written(W::encoding(), self@).bytes);
        r
    }
}

impl tag::LongArray {
    /// The type of the tag.
    #[inline]
    pub fn tag_type(&self) -> (t: NBTTagType)
        ensures
            t == NBTTagType::LongArray,
            t == self@.tag_type(),
    {
        NBTTagType::LongArray
    }

    /// Reads a root that has to be a long array tag. Fails with
    /// [`ReadError::UnexpectedTag`] where the root is of another type.
    pub fn read<R: Reader>(buf: &mut &[u8]) -> (r: reader::Res<Self>)
        ensures
            reads(r, old(buf)@, final(buf)@, parse_root_of(R::encoding(), 12, old(buf)@)),
    {
        let mut cur: &[u8] = *buf;
        match read_head::<R>(&mut cur, 12) {
            Ok(_) => {},
            Err(err) => {
                return Err(err);
            },
        }
        match Self::read_payload::<R>(&mut cur) {
            Ok(tag) => {
                *buf = cur;
                Ok(tag)
            },
            Err(err) => Err(err),
        }
    }

    /// Writes the tag as a root: the byte that names its type, the empty
    /// name, and its payload.
    pub fn write<W: Writer>(&self, buf: &mut Vec<u8>) -> (r: writer::Res)
        ensures
            writes(r, old(buf)@, final(buf)@, root_written(W::encoding(), self@)),
            r is Ok <==> self@.writable(),
    {
        proof {
            crate::laws::lemma_writable(W::encoding(), self@);
        }
        match write_head::<W>(buf, 12) {
            Ok(_) => {},
            Err(err) => {
                return Err(err);
            },
        }
        let r = self.write_payload::<W>(buf);
        assert(buf@ =~= old(buf)@ + root_written(W::encoding(), self@).bytes);
        r
    }
}

} // verus!

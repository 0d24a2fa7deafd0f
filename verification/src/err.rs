//! Errors of the codec, and the path that locates an error inside a tag tree.
use crate::text::decimal;
use crate::text::decimal_text;
use crate::NBTTagType;
use std::collections::VecDeque;
use vstd::prelude::*;

verus! {

/// Why a byte source or sink failed.
#[derive(Debug, Clone, Copy, PartialEq, Eq, Structural)]
pub enum IoError {
    /// The source ended before the requested bytes were read. This is the
    /// one failure of a source that is held in memory.
    UnexpectedEof,
    /// Any other failure of a source or sink outside of memory.
    Other,
}

/// An error that can occur while reading NBT data from a byte source.
#[derive(Debug, Clone, PartialEq, Eq)]
pub enum ReadError {
    /// The byte source failed.
    Io(IoError),
    /// A tag id was read that names no tag type.
    UnknownTagType(u8),
    /// A tag id was read (second) where another one (first) was expected.
    UnexpectedTag(u8, u8),
    /// A length prefix (second) lies outside of zero to the bound (first).
    SeqLengthViolation(usize, i32),
    /// The bytes are not Modified UTF-8.
    InvalidString(Vec<u8>),
    /// Any other failure, described in words.
    Custom(String),
}

/// An error that can occur while writing NBT data into a byte sink.
#[derive(Debug, Clone, PartialEq, Eq)]
pub enum WriteError {
    /// The byte sink failed.
    Io(IoError),
    /// A list holds a tag (second) whose type differs from that of its first element (first).
    UnexpectedTag(NBTTagType, NBTTagType),
    /// A sequence has more elements (second) than its length prefix can express (first).
    SeqLengthViolation(usize, usize),
    /// Any other failure, described in words.
    Custom(String),
}

/// The mathematical value of a [`ReadError`].
pub enum ReadFault {
    Io(IoError),
    UnknownTagType(u8),
    UnexpectedTag(u8, u8),
    SeqLengthViolation(usize, i32),
    InvalidString(Seq<u8>),
    Custom(Seq<char>),
}

/// The mathematical value of a [`WriteError`].
pub enum WriteFault {
    Io(IoError),
    UnexpectedTag(NBTTagType, NBTTagType),
    SeqLengthViolation(usize, usize),
    Custom(Seq<char>),
}

impl View for ReadError {
    type V = ReadFault;

    open spec fn view(&self) -> ReadFault {
        match *self {
            ReadError::Io(e) => ReadFault::Io(e),
            ReadError::UnknownTagType(id) => ReadFault::UnknownTagType(id),
            ReadError::UnexpectedTag(want, got) => ReadFault::UnexpectedTag(want, got),
            ReadError::SeqLengthViolation(max, got) => ReadFault::SeqLengthViolation(max, got),
            ReadError::InvalidString(bytes) => ReadFault::InvalidString(bytes@),
            ReadError::Custom(msg) => ReadFault::Custom(msg@),
        }
    }
}

impl View for WriteError {
    type V = WriteFault;

    open spec fn view(&self) -> WriteFault {
        match *self {
            WriteError::Io(e) => WriteFault::Io(e),
            WriteError::UnexpectedTag(want, got) => WriteFault::UnexpectedTag(want, got),
            WriteError::SeqLengthViolation(max, got) => WriteFault::SeqLengthViolation(max, got),
            WriteError::Custom(msg) => WriteFault::Custom(msg@),
        }
    }
}

/// A single step of a [`Path`].
#[derive(Debug, Clone, PartialEq, Eq)]
pub enum PathPart {
    /// The step is a map key.
    MapKey(String),
    /// The step is a field of a struct.
    Field(String),
    /// The step is a field of a tuple.
    TupleField(usize),
    /// The step is an element of a sequence.
    Element(usize),
}

/// The mathematical value of a [`PathPart`].
pub enum PathStep {
    MapKey(Seq<char>),
    Field(Seq<char>),
    TupleField(usize),
    Element(usize),
}

impl View for PathPart {
    type V = PathStep;

    open spec fn view(&self) -> PathStep {
        match *self {
            PathPart::MapKey(k) => PathStep::MapKey(k@),
            PathPart::Field(k) => PathStep::Field(k@),
            PathPart::TupleField(i) => PathStep::TupleField(i),
            PathPart::Element(i) => PathStep::Element(i),
        }
    }
}

/// How one step is written out.
pub open spec fn step_text(step: PathStep) -> Seq<char> {
    match step {
        PathStep::MapKey(k) => k,
        PathStep::Field(k) => k,
        PathStep::TupleField(i) => decimal_text(i as nat),
        PathStep::Element(i) => seq!['['] + decimal_text(i as nat) + seq![']'],
    }
}

/// How the steps after the first are written out: each is preceded by a dot,
/// unless it is a sequence element.
pub open spec fn tail_text(steps: Seq<PathStep>) -> Seq<char>
    decreases steps.len(),
{
    if steps.len() == 0 {
        Seq::empty()
    } else {
        let dot = if steps.last() is Element {
            Seq::<char>::empty()
        } else {
            seq!['.']
        };
        tail_text(steps.drop_last()) + dot + step_text(steps.last())
    }
}

/// How a path is written out: `(root)` where it is empty, else its steps in order.
pub open spec fn path_text(steps: Seq<PathStep>) -> Seq<char> {
    if steps.len() == 0 {
        seq!['(', 'r', 'o', 'o', 't', ')']
    } else {
        step_text(steps[0]) + tail_text(steps.skip(1))
    }
}

impl PathPart {
    /// Writes the step out.
    pub fn to_string(&self) -> (out: String)
        ensures
            out@ == step_text(self@),
    {
        match self {
            PathPart::MapKey(k) => k.clone(),
            PathPart::Field(k) => k.clone(),
            PathPart::TupleField(i) => decimal(*i),
            PathPart::Element(i) => {
                proof {
                    reveal_strlit("[");
                    reveal_strlit("]");
                }
                let mut out = String::from_str("[");
                let digits = decimal(*i);
                out.append(digits.as_str());
                out.append("]");
                assert(out@ =~= step_text(self@));
                out
            },
        }
    }
}

/// The place inside a tag tree at which an error occurred, outermost step first.
#[derive(Debug, Default, Clone, PartialEq, Eq)]
pub struct Path(pub VecDeque<PathPart>);

impl View for Path {
    type V = Seq<PathStep>;

    open spec fn view(&self) -> Seq<PathStep> {
        self.0@.map_values(|p: PathPart| p@)
    }
}

impl Path {
    /// Creates a path of one step.
    pub fn from_single(part: PathPart) -> (path: Self)
        ensures
            path@ == seq![part@],
    {
        let mut steps: VecDeque<PathPart> = VecDeque::new();
        steps.push_back(part);
        let path = Path(steps);
        assert(path@ =~= seq![part@]);
        path
    }

    /// Writes the path out.
    pub fn to_string(&self) -> (out: String)
        ensures
            out@ == path_text(self@),
    {
        if self.0.len() == 0 {
            proof {
                reveal_strlit("(root)");
            }
            let out = String::from_str("(root)");
            assert(out@ =~= path_text(self@));
            return out;
        }
        let mut out = self.0[0].to_string();
        let mut i: usize = 1;
        while i < self.0.len()
            invariant
                1 <= i <= self.0.len(),
                out@ == step_text(self@[0]) + tail_text(self@.subrange(1, i as int)),
            decreases self.0.len() - i,
        {
            let ghost before = self@.subrange(1, i as int);
            let ghost after = self@.subrange(1, i + 1);
            match &self.0[i] {
                PathPart::Element(_) => {},
                _ => {
                    proof {
                        reveal_strlit(".");
                    }
                    out.append(".");
                },
            }
            let text = self.0[i].to_string();
            out.append(text.as_str());
            proof {
                assert(after.drop_last() =~= before);
                assert(after.last() == self@[i as int]);
                assert(out@ =~= step_text(self@[0]) + tail_text(after));
            }
            i += 1;
        }
        proof {
            assert(self@.subrange(1, i as int) =~= self@.skip(1));
        }
        out
    }
}

/// The mathematical value of an [`NBTError`]: what went wrong, and where.
pub struct Failure<F> {
    pub fault: F,
    pub path: Seq<PathStep>,
}

/// The content of an [`NBTError`].
#[derive(Debug, Default, Clone, PartialEq, Eq)]
pub struct InnerNBTError<I> {
    /// What went wrong.
    pub inner: I,
    /// Where it went wrong.
    pub path: Path,
}

/// An error together with the [`Path`] to the place where it occurred.
#[derive(Debug, Default, Clone, PartialEq, Eq)]
pub struct NBTError<I> {
    /// The error and its path, boxed to keep the successful case small.
    pub boxed: Box<InnerNBTError<I>>,
}

impl<I: View> View for NBTError<I> {
    type V = Failure<I::V>;

    open spec fn view(&self) -> Failure<I::V> {
        Failure { fault: self.boxed.inner@, path: self.boxed.path@ }
    }
}

impl<I> core::ops::Deref for NBTError<I> {
    type Target = InnerNBTError<I>;

    /// The error and its path.
    fn deref(&self) -> (inner: &InnerNBTError<I>)
        ensures
            *inner == *self.boxed,
    {
        &*self.boxed
    }
}

impl<I> core::ops::DerefMut for NBTError<I> {
    /// The error and its path, to be changed in place.
    fn deref_mut(&mut self) -> (inner: &mut InnerNBTError<I>)
        ensures
            *inner == *old(self).boxed,
            *final(self).boxed == *final(inner),
    {
        &mut *self.boxed
    }
}

impl<I> NBTError<I> {
    /// Wraps an error that occurred at the root.
    pub fn new(inner: I) -> (err: Self)
        ensures
            err.boxed.inner == inner,
            err.boxed.path@ == Seq::<PathStep>::empty(),
    {
        let path = Path(VecDeque::new());
        assert(path@ =~= Seq::<PathStep>::empty());
        NBTError { boxed: Box::new(InnerNBTError { inner, path }) }
    }

    /// Wraps an error that occurred at the given path.
    pub fn new_with_path(inner: I, path: Path) -> (err: Self)
        ensures
            err.boxed.inner == inner,
            err.boxed.path == path,
    {
        NBTError { boxed: Box::new(InnerNBTError { inner, path }) }
    }

    /// Puts one more step in front of the path.
    pub fn prepend(self, part: PathPart) -> (err: Self)
        ensures
            err.boxed.inner == self.boxed.inner,
            err.boxed.path@ == seq![part@] + self.boxed.path@,
    {
        let InnerNBTError { inner, path } = *self.boxed;
        let mut steps = path.0;
        steps.push_front(part);
        let path = Path(steps);
        assert(path@ =~= seq![part@] + self.boxed.path@);
        NBTError { boxed: Box::new(InnerNBTError { inner, path }) }
    }
}

} // verus!

//! Lookup, insertion and stepwise construction of compound tags.
use crate::lemma_entries_of;
use crate::model::distinct_keys;
use crate::model::has_key;
use crate::model::inserted;
use crate::model::lookup;
use crate::model::position;
use crate::model::TagModel;
use crate::tag;
use crate::tag::Compound;
use crate::NBTTag;
use vstd::prelude::*;

verus! {

/// The first entry of a name is where [`position`] says, and a name of which
/// no entry exists has none.
pub proof fn lemma_position(entries: crate::model::Entries, key: Seq<char>, at: int)
    requires
        0 <= at <= entries.len(),
        forall|k: int| 0 <= k < at ==> (#[trigger] entries[k]).0 != key,
    ensures
        at < entries.len() && entries[at].0 == key ==> has_key(entries, key) && position(
            entries,
            key,
        ) == at,
        at == entries.len() ==> !has_key(entries, key),
{
    if at < entries.len() && entries[at].0 == key {
        assert(has_key(entries, key));
        let found = position(entries, key);
        assert(0 <= found < entries.len() && entries[found].0 == key && forall|j: int|
            0 <= j < found ==> (#[trigger] entries[j]).0 != key);
    }
}

/// Before an entry of a name there is a first entry of that name.
proof fn lemma_first_entry(entries: crate::model::Entries, key: Seq<char>, some: int)
    requires
        0 <= some < entries.len(),
        entries[some].0 == key,
    ensures
        exists|at: int|
            0 <= at < entries.len() && (#[trigger] entries[at]).0 == key && forall|j: int|
                0 <= j < at ==> (#[trigger] entries[j]).0 != key,
    decreases some,
{
    if exists|j: int| 0 <= j < some && (#[trigger] entries[j]).0 == key {
        let j = choose|j: int| 0 <= j < some && (#[trigger] entries[j]).0 == key;
        lemma_first_entry(entries, key, j);
    }
}

/// Where an entry of a name exists, [`position`] is the index of the first one.
pub proof fn lemma_position_is_first(entries: crate::model::Entries, key: Seq<char>)
    requires
        has_key(entries, key),
    ensures
        0 <= position(entries, key) < entries.len(),
        entries[position(entries, key)].0 == key,
        forall|j: int| 0 <= j < position(entries, key) ==> (#[trigger] entries[j]).0 != key,
{
    let some = choose|i: int| 0 <= i < entries.len() && (#[trigger] entries[i]).0 == key;
    lemma_first_entry(entries, key, some);
}

/// Putting a tag under a name keeps the names distinct.
pub proof fn lemma_inserted_distinct(entries: crate::model::Entries, key: Seq<char>, value: crate::model::TagModel)
    requires
        distinct_keys(entries),
    ensures
        distinct_keys(inserted(entries, key, value)),
{
    if has_key(entries, key) {
        let at = position(entries, key);
        assert(0 <= at < entries.len() && entries[at].0 == key && forall|j: int|
            0 <= j < at ==> (#[trigger] entries[j]).0 != key);
        let after = inserted(entries, key, value);
        assert forall|i: int, j: int| 0 <= i < j < after.len() implies (#[trigger] after[i]).0 != (
        #[trigger] after[j]).0 by {
            assert(after[i].0 == entries[i].0);
            assert(after[j].0 == entries[j].0);
        }
    } else {
        let after = inserted(entries, key, value);
        assert forall|i: int, j: int| 0 <= i < j < after.len() implies (#[trigger] after[i]).0 != (
        #[trigger] after[j]).0 by {
            if j == entries.len() {
                assert(entries[i].0 != key);
            } else {
                assert(after[i].0 == entries[i].0);
                assert(after[j].0 == entries[j].0);
            }
        }
    }
}

impl Compound {
    /// No name occurs twice, here or in any compound further down.
    pub open spec fn wf(&self) -> bool {
        self@.wf()
    }

    /// Creates a compound without entries.
    pub fn new() -> (c: Self)
        ensures
            c.entries() == crate::model::Entries::empty(),
            c.wf(),
    {
        let c = Compound(Vec::new());
        proof {
            lemma_entries_of(c.0@);
            assert(c.entries() =~= crate::model::Entries::empty());
        }
        c
    }

    /// The number of entries.
    pub fn len(&self) -> (n: usize)
        ensures
            n == self.entries().len(),
    {
        proof {
            lemma_entries_of(self.0@);
        }
        self.0.len()
    }

    /// Whether the compound has no entries.
    pub fn is_empty(&self) -> (b: bool)
        ensures
            b == (self.entries().len() == 0),
    {
        proof {
            lemma_entries_of(self.0@);
        }
        self.0.len() == 0
    }

    /// The index of the first entry of that name.
    fn find(&self, key: &String) -> (at: usize)
        ensures
            at <= self.0.len(),
            at < self.0.len() ==> has_key(self.entries(), key@) && position(self.entries(), key@) == at,
            at == self.0.len() ==> !has_key(self.entries(), key@),
    {
        proof {
            lemma_entries_of(self.0@);
        }
        let mut i: usize = 0;
        while i < self.0.len()
            invariant
                0 <= i <= self.0.len(),
                self.entries().len() == self.0.len(),
                forall|k: int|
                    0 <= k < self.0.len() ==> (#[trigger] self.entries()[k]) == (
                        self.0[k].0@,
                        self.0[k].1@,
                    ),
                forall|k: int| 0 <= k < i ==> (#[trigger] self.entries()[k]).0 != key@,
            decreases self.0.len() - i,
        {
            if self.0[i].0 == *key {
                proof {
                    lemma_position(self.entries(), key@, i as int);
                }
                return i;
            }
            i += 1;
        }
        proof {
            lemma_position(self.entries(), key@, i as int);
        }
        i
    }

    /// The tag under that name, if there is one.
    pub fn get(&self, key: &str) -> (found: Option<&NBTTag>)
        ensures
            match found {
                Some(tag) => lookup(self.entries(), key@) == Some(tag@),
                None => lookup(self.entries(), key@) is None,
            },
    {
        proof {
            lemma_entries_of(self.0@);
        }
        let owned = String::from_str(key);
        let at = self.find(&owned);
        if at < self.0.len() {
            Some(&self.0[at].1)
        } else {
            None
        }
    }

    /// The tag under that name, if there is one and it is a byte tag.
    pub fn get_byte(&self, key: &str) -> (found: Option<&tag::Byte>)
        ensures
            match found {
                Some(tag) => lookup(self.entries(), key@) == Some(tag@),
                None => !(lookup(self.entries(), key@) matches Some(v) && v is Byte),
            },
    {
        match self.get(key) {
            Some(NBTTag::Byte(val)) => Some(val),
            _ => None,
        }
    }

    /// The tag under that name, if there is one and it is a short tag.
    pub fn get_short(&self, key: &str) -> (found: Option<&tag::Short>)
        ensures
            match found {
                Some(tag) => lookup(self.entries(), key@) == Some(tag@),
                None => !(lookup(self.entries(), key@) matches Some(v) && v is Short),
            },
    {
        match self.get(key) {
            Some(NBTTag::Short(val)) => Some(val),
            _ => None,
        }
    }

    /// The tag under that name, if there is one and it is an int tag.
    pub fn get_int(&self, key: &str) -> (found: Option<&tag::Int>)
        ensures
            match found {
                Some(tag) => lookup(self.entries(), key@) == Some(tag@),
                None => !(lookup(self.entries(), key@) matches Some(v) && v is Int),
            },
    {
        match self.get(key) {
            Some(NBTTag::Int(val)) => Some(val),
            _ => None,
        }
    }

    /// The tag under that name, if there is one and it is a long tag.
    pub fn get_long(&self, key: &str) -> (found: Option<&tag::Long>)
        ensures
            match found {
                Some(tag) => lookup(self.entries(), key@) == Some(tag@),
                None => !(lookup(self.entries(), key@) matches Some(v) && v is Long),
            },
    {
        match self.get(key) {
            Some(NBTTag::Long(val)) => Some(val),
            _ => None,
        }
    }

    /// The tag under that name, if there is one and it is a float tag.
    pub fn get_float(&self, key: &str) -> (found: Option<&tag::Float>)
        ensures
            match found {
                Some(tag) => lookup(self.entries(), key@) == Some(tag@),
                None => !(lookup(self.entries(), key@) matches Some(v) && v is Float),
            },
    {
        match self.get(key) {
            Some(NBTTag::Float(val)) => Some(val),
            _ => None,
        }
    }

    /// The tag under that name, if there is one and it is a double tag.
    pub fn get_double(&self, key: &str) -> (found: Option<&tag::Double>)
        ensures
            match found {
                Some(tag) => lookup(self.entries(), key@) == Some(tag@),
                None => !(lookup(self.entries(), key@) matches Some(v) && v is Double),
            },
    {
        match self.get(key) {
            Some(NBTTag::Double(val)) => Some(val),
            _ => None,
        }
    }

    /// The tag under that name, if there is one and it is a string tag.
    pub fn get_string(&self, key: &str) -> (found: Option<&tag::String>)
        ensures
            match found {
                Some(tag) => lookup(self.entries(), key@) == Some(tag@),
                None => !(lookup(self.entries(), key@) matches Some(v) && v is String),
            },
    {
        match self.get(key) {
            Some(NBTTag::String(val)) => Some(val),
            _ => None,
        }
    }

    /// The tag under that name, if there is one and it is a compound tag.
    pub fn get_compound(&self, key: &str) -> (found: Option<&Compound>)
        ensures
            match found {
                Some(tag) => lookup(self.entries(), key@) == Some(tag@),
                None => !(lookup(self.entries(), key@) matches Some(v) && v is Compound),
            },
    {
        match self.get(key) {
            Some(NBTTag::Compound(val)) => Some(val),
            _ => None,
        }
    }

    /// The tag under that name, if there is one and it is a list tag.
    pub fn get_list(&self, key: &str) -> (found: Option<&tag::List>)
        ensures
            match found {
                Some(tag) => lookup(self.entries(), key@) == Some(tag@),
                None => !(lookup(self.entries(), key@) matches Some(v) && v is List),
            },
    {
        match self.get(key) {
            Some(NBTTag::List(val)) => Some(val),
            _ => None,
        }
    }

    /// The tag under that name, if there is one and it is a byte array tag.
    pub fn get_byte_array(&self, key: &str) -> (found: Option<&tag::ByteArray>)
        ensures
            match found {
                Some(tag) => lookup(self.entries(), key@) == Some(tag@),
                None => !(lookup(self.entries(), key@) matches Some(v) && v is ByteArray),
            },
    {
        match self.get(key) {
            Some(NBTTag::ByteArray(val)) => Some(val),
            _ => None,
        }
    }

    /// The tag under that name, if there is one and it is an int array tag.
    pub fn get_int_array(&self, key: &str) -> (found: Option<&tag::IntArray>)
        ensures
            match found {
                Some(tag) => lookup(self.entries(), key@) == Some(tag@),
                None => !(lookup(self.entries(), key@) matches Some(v) && v is IntArray),
            },
    {
        match self.get(key) {
            Some(NBTTag::IntArray(val)) => Some(val),
            _ => None,
        }
    }

    /// The tag under that name, if there is one and it is a long array tag.
    pub fn get_long_array(&self, key: &str) -> (found: Option<&tag::LongArray>)
        ensures
            match found {
                Some(tag) => lookup(self.entries(), key@) == Some(tag@),
                None => !(lookup(self.entries(), key@) matches Some(v) && v is LongArray),
            },
    {
        match self.get(key) {
            Some(NBTTag::LongArray(val)) => Some(val),
            _ => None,
        }
    }

    /// Puts a tag under a name. Where the name has an entry, the tag takes the
    /// place of the old one, which is returned; else the entry goes to the end.
    pub fn insert(&mut self, key: String, value: NBTTag) -> (replaced: Option<NBTTag>)
        ensures
            final(self).entries() == inserted(old(self).entries(), key@, value@),
            old(self).wf() && value@.wf() ==> final(self).wf(),
            match replaced {
                Some(tag) => lookup(old(self).entries(), key@) == Some(tag@),
                None => lookup(old(self).entries(), key@) is None,
            },
    {
        proof {
            lemma_entries_of(self.0@);
        }
        proof {
            if self.wf() && value@.wf() {
                crate::laws::lemma_inserted_wf(self.entries(), key@, value@);
            }
        }
        let at = self.find(&key);
        if at < self.0.len() {
            let mut pair = (key, value);
            self.0.set_and_swap(at, &mut pair);
            proof {
                lemma_entries_of(self.0@);
                assert(self.entries() =~= inserted(old(self).entries(), key@, value@));
            }
            Some(pair.1)
        } else {
            self.0.push((key, value));
            proof {
                lemma_entries_of(self.0@);
                assert(self.entries() =~= inserted(old(self).entries(), key@, value@));
            }
            None
        }
    }
}

/// Builds a compound entry by entry.
#[must_use]
#[derive(Debug, Default)]
pub struct Builder {
    value: Compound,
}

impl Compound {
    /// Returns a builder that holds a compound without entries.
    pub fn builder() -> (b: Builder)
        ensures
            b.entries() == crate::model::Entries::empty(),
    {
        Builder { value: Compound::new() }
    }
}

impl Builder {
    /// The entries put in so far.
    pub closed spec fn entries(&self) -> crate::model::Entries {
        self.value.entries()
    }

    /// The compound built so far.
    pub closed spec fn built(self) -> Compound {
        self.value
    }

    /// Hands out the compound that was built.
    #[must_use]
    pub fn build(self) -> (c: Compound)
        ensures
            c == self.built(),
            c.entries() == self.entries(),
    {
        self.value
    }

    /// Puts a tag under a name that has no entry yet.
    pub fn with(self, key: &str, value: NBTTag) -> (b: Self)
        requires
            !has_key(self.entries(), key@),
        ensures
            b.entries() == self.entries().push((key@, value@)),
    {
        let mut b = self;
        b.value.insert(String::from_str(key), value);
        b
    }

    /// Puts a byte under a name that has no entry yet.
    pub fn with_byte(self, key: &str, v: i8) -> (b: Self)
        requires
            !has_key(self.entries(), key@),
        ensures
            b.entries() == self.entries().push((key@, TagModel::Byte(v))),
    {
        self.with(key, NBTTag::Byte(tag::Byte(v)))
    }

    /// Puts a short under a name that has no entry yet.
    pub fn with_short(self, key: &str, v: i16) -> (b: Self)
        requires
            !has_key(self.entries(), key@),
        ensures
            b.entries() == self.entries().push((key@, TagModel::Short(v))),
    {
        self.with(key, NBTTag::Short(tag::Short(v)))
    }

    /// Puts an int under a name that has no entry yet.
    pub fn with_int(self, key: &str, v: i32) -> (b: Self)
        requires
            !has_key(self.entries(), key@),
        ensures
            b.entries() == self.entries().push((key@, TagModel::Int(v))),
    {
        self.with(key, NBTTag::Int(tag::Int(v)))
    }

    /// Puts a long under a name that has no entry yet.
    pub fn with_long(self, key: &str, v: i64) -> (b: Self)
        requires
            !has_key(self.entries(), key@),
        ensures
            b.entries() == self.entries().push((key@, TagModel::Long(v))),
    {
        self.with(key, NBTTag::Long(tag::Long(v)))
    }

    /// Puts a float under a name that has no entry yet.
    pub fn with_float(self, key: &str, v: tag::Float) -> (b: Self)
        requires
            !has_key(self.entries(), key@),
        ensures
            b.entries() == self.entries().push((key@, v@)),
    {
        self.with(key, NBTTag::Float(v))
    }

    /// Puts a double under a name that has no entry yet.
    pub fn with_double(self, key: &str, v: tag::Double) -> (b: Self)
        requires
            !has_key(self.entries(), key@),
        ensures
            b.entries() == self.entries().push((key@, v@)),
    {
        self.with(key, NBTTag::Double(v))
    }

    /// Puts a string under a name that has no entry yet.
    pub fn with_string(self, key: &str, v: tag::String) -> (b: Self)
        requires
            !has_key(self.entries(), key@),
        ensures
            b.entries() == self.entries().push((key@, v@)),
    {
        self.with(key, NBTTag::String(v))
    }

    /// Puts a compound under a name that has no entry yet.
    pub fn with_compound(self, key: &str, v: Compound) -> (b: Self)
        requires
            !has_key(self.entries(), key@),
        ensures
            b.entries() == self.entries().push((key@, v@)),
    {
        self.with(key, NBTTag::Compound(v))
    }

    /// Puts a list under a name that has no entry yet.
    pub fn with_list(self, key: &str, v: tag::List) -> (b: Self)
        requires
            !has_key(self.entries(), key@),
        ensures
            b.entries() == self.entries().push((key@, v@)),
    {
        self.with(key, NBTTag::List(v))
    }

    /// Puts a byte array under a name that has no entry yet.
    pub fn with_byte_array(self, key: &str, v: Vec<i8>) -> (b: Self)
        requires
            !has_key(self.entries(), key@),
        ensures
            b.entries() == self.entries().push((key@, TagModel::ByteArray(v@))),
    {
        self.with(key, NBTTag::ByteArray(tag::ByteArray(v)))
    }

    /// Puts an int array under a name that has no entry yet.
    pub fn with_int_array(self, key: &str, v: Vec<i32>) -> (b: Self)
        requires
            !has_key(self.entries(), key@),
        ensures
            b.entries() == self.entries().push((key@, TagModel::IntArray(v@))),
    {
        self.with(key, NBTTag::IntArray(tag::IntArray(v)))
    }

    /// Puts a long array under a name that has no entry yet.
    pub fn with_long_array(self, key: &str, v: Vec<i64>) -> (b: Self)
        requires
            !has_key(self.entries(), key@),
        ensures
            b.entries() == self.entries().push((key@, TagModel::LongArray(v@))),
    {
        self.with(key, NBTTag::LongArray(tag::LongArray(v)))
    }
}

} // verus!

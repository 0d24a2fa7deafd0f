//! Asking of a tag whether it can be written, and whether reading gives it
//! back as it was written.
use crate::entries_of;
use crate::items_of;
use crate::lemma_entries_of;
use crate::lemma_items_of;
use crate::model::distinct_keys;
use crate::mutf8::encoded;
use crate::mutf8::from_java_cesu8;
use crate::mutf8::survives;
use crate::mutf8::to_java_cesu8;
use crate::tag;
use crate::NBTTag;
use vstd::prelude::*;

verus! {

/// Whether a text has no more than [`i16::MAX`] bytes in Modified UTF-8.
fn text_fits(text: &String) -> (r: bool)
    ensures
        r == (encoded(text@).len() <= 0x7fff),
{
    let bytes = to_java_cesu8(text.as_str());
    bytes.len() <= 0x7fff
}

/// Whether a text comes back from its own Modified UTF-8 bytes.
fn text_survives(text: &String) -> (r: bool)
    ensures
        r == survives(text@),
{
    let bytes = to_java_cesu8(text.as_str());
    match from_java_cesu8(bytes.as_slice()) {
        Ok(back) => back == *text,
        Err(_) => false,
    }
}

/// Whether no name occurs twice among the pairs.
fn names_differ(pairs: &Vec<(String, NBTTag)>) -> (r: bool)
    ensures
        r == distinct_keys(entries_of(pairs@)),
{
    proof {
        lemma_entries_of(pairs@);
    }
    let ghost entries = entries_of(pairs@);
    let mut j: usize = 0;
    while j < pairs.len()
        invariant
            0 <= j <= pairs.len(),
            entries == entries_of(pairs@),
            entries.len() == pairs.len(),
            forall|k: int| 0 <= k < pairs.len() ==> (#[trigger] entries[k]).0 == pairs@[k].0@,
            forall|a: int, b: int|
                0 <= a < b < j ==> (#[trigger] entries[a]).0 != (#[trigger] entries[b]).0,
        decreases pairs.len() - j,
    {
        let mut i: usize = 0;
        while i < j
            invariant
                0 <= i <= j < pairs.len(),
                entries == entries_of(pairs@),
                entries.len() == pairs.len(),
                forall|k: int| 0 <= k < pairs.len() ==> (#[trigger] entries[k]).0 == pairs@[k].0@,
                forall|a: int| 0 <= a < i ==> (#[trigger] entries[a]).0 != entries[j as int].0,
            decreases j - i,
        {
            if pairs[i].0 == pairs[j].0 {
                assert(entries[i as int].0 == entries[j as int].0);
                return false;
            }
            i += 1;
        }
        j += 1;
    }
    true
}

/// Whether every tag of a sequence is of the type of the first and can be written.
fn tags_writable(tags: &Vec<NBTTag>) -> (r: bool)
    ensures
        r == (forall|k: int|
            0 <= k < tags.len() ==> (#[trigger] items_of(tags@)[k]).id() == items_of(tags@)[0].id()
                && items_of(tags@)[k].writable()),
    decreases tags,
{
    proof {
        lemma_items_of(tags@);
    }
    let ghost items = items_of(tags@);
    let mut i: usize = 0;
    while i < tags.len()
        invariant
            0 <= i <= tags.len(),
            items == items_of(tags@),
            items.len() == tags.len(),
            forall|k: int| 0 <= k < tags.len() ==> (#[trigger] items[k]) == tags@[k]@,
            forall|k: int|
                0 <= k < i ==> (#[trigger] items[k]).id() == items[0].id() && items[k].writable(),
        decreases tags.len() - i,
    {
        if tags[i].tag_id() != tags[0].tag_id() || !tags[i].is_writable() {
            assert(!(items[i as int].id() == items[0].id() && items[i as int].writable()));
            return false;
        }
        i += 1;
    }
    true
}

/// Whether every name of a sequence of named tags has no more than
/// [`i16::MAX`] bytes in Modified UTF-8, and every tag can be written.
fn entries_writable(pairs: &Vec<(String, NBTTag)>) -> (r: bool)
    ensures
        r == (forall|k: int|
            0 <= k < pairs.len() ==> encoded((#[trigger] entries_of(pairs@)[k]).0).len() <= 0x7fff
                && entries_of(pairs@)[k].1.writable()),
    decreases pairs,
{
    proof {
        lemma_entries_of(pairs@);
    }
    let ghost entries = entries_of(pairs@);
    let mut i: usize = 0;
    while i < pairs.len()
        invariant
            0 <= i <= pairs.len(),
            entries == entries_of(pairs@),
            entries.len() == pairs.len(),
            forall|k: int|
                0 <= k < pairs.len() ==> (#[trigger] entries[k]) == (pairs@[k].0@, pairs@[k].1@),
            forall|k: int|
                0 <= k < i ==> encoded((#[trigger] entries[k]).0).len() <= 0x7fff
                    && entries[k].1.writable(),
        decreases pairs.len() - i,
    {
        if !text_fits(&pairs[i].0) || !pairs[i].1.is_writable() {
            assert(!(encoded(entries[i as int].0).len() <= 0x7fff
                && entries[i as int].1.writable()));
            return false;
        }
        i += 1;
    }
    true
}

/// Whether reading gives every tag of a sequence back as it was written.
fn tags_faithful(tags: &Vec<NBTTag>) -> (r: bool)
    ensures
        r == (forall|k: int| 0 <= k < tags.len() ==> (#[trigger] items_of(tags@)[k]).faithful()),
    decreases tags,
{
    proof {
        lemma_items_of(tags@);
    }
    let ghost items = items_of(tags@);
    let mut i: usize = 0;
    while i < tags.len()
        invariant
            0 <= i <= tags.len(),
            items == items_of(tags@),
            items.len() == tags.len(),
            forall|k: int| 0 <= k < tags.len() ==> (#[trigger] items[k]) == tags@[k]@,
            forall|k: int| 0 <= k < i ==> (#[trigger] items[k]).faithful(),
        decreases tags.len() - i,
    {
        if !tags[i].is_faithful() {
            assert(!items[i as int].faithful());
            return false;
        }
        i += 1;
    }
    true
}

/// Whether every name of a sequence of named tags comes back from its
/// Modified UTF-8 bytes, and reading gives every tag back as it was written.
fn entries_faithful(pairs: &Vec<(String, NBTTag)>) -> (r: bool)
    ensures
        r == (forall|k: int|
            0 <= k < pairs.len() ==> survives((#[trigger] entries_of(pairs@)[k]).0) && entries_of(
                pairs@,
            )[k].1.faithful()),
    decreases pairs,
{
    proof {
        lemma_entries_of(pairs@);
    }
    let ghost entries = entries_of(pairs@);
    let mut i: usize = 0;
    while i < pairs.len()
        invariant
            0 <= i <= pairs.len(),
            entries == entries_of(pairs@),
            entries.len() == pairs.len(),
            forall|k: int|
                0 <= k < pairs.len() ==> (#[trigger] entries[k]) == (pairs@[k].0@, pairs@[k].1@),
            forall|k: int|
                0 <= k < i ==> survives((#[trigger] entries[k]).0) && entries[k].1.faithful(),
        decreases pairs.len() - i,
    {
        if !text_survives(&pairs[i].0) || !pairs[i].1.is_faithful() {
            assert(!(survives(entries[i as int].0) && entries[i as int].1.faithful()));
            return false;
        }
        i += 1;
    }
    true
}

impl NBTTag {
    /// Whether the tag can be written: whether writing it, in any encoding,
    /// ends without a failure.
    pub fn is_writable(&self) -> (r: bool)
        ensures
            r == self@.writable(),
        decreases self,
    {
        match self {
            NBTTag::String(tag::String::Utf8(text)) => text_fits(text),
            NBTTag::String(tag::String::Bytes(bytes)) => bytes.len() <= 0x7fff,
            NBTTag::ByteArray(array) => array.0.len() <= 0x7fff_ffff,
            NBTTag::IntArray(array) => array.0.len() <= 0x7fff_ffff,
            NBTTag::LongArray(array) => array.0.len() <= 0x7fff_ffff,
            NBTTag::List(list) => {
                proof {
                    lemma_items_of(list.0@);
                    assert(self@->List_0 == items_of(list.0@));
                }
                list.0.len() <= 0x7fff_ffff && tags_writable(&list.0)
            },
            NBTTag::Compound(compound) => {
                proof {
                    lemma_entries_of(compound.0@);
                    assert(self@->Compound_0 == entries_of(compound.0@));
                }
                entries_writable(&compound.0)
            },
            _ => true,
        }
    }

    /// Whether reading gives the tag back as it was written: whether every
    /// text in it, names too, comes back from its Modified UTF-8 bytes, every
    /// string held as bytes holds bytes that are not Modified UTF-8, and no
    /// compound holds a name twice.
    pub fn is_faithful(&self) -> (r: bool)
        ensures
            r == self@.faithful(),
        decreases self,
    {
        match self {
            NBTTag::String(tag::String::Utf8(text)) => text_survives(text),
            NBTTag::String(tag::String::Bytes(bytes)) => {
                match from_java_cesu8(bytes.as_slice()) {
                    Ok(_) => false,
                    Err(_) => true,
                }
            },
            NBTTag::List(list) => {
                proof {
                    lemma_items_of(list.0@);
                    assert(self@->List_0 == items_of(list.0@));
                }
                tags_faithful(&list.0)
            },
            NBTTag::Compound(compound) => {
                proof {
                    lemma_entries_of(compound.0@);
                    assert(self@->Compound_0 == entries_of(compound.0@));
                }
                names_differ(&compound.0) && entries_faithful(&compound.0)
            },
            _ => true,
        }
    }
}

} // verus!

//! See [`TagView`].
use crate::model::lookup;
use crate::model::TagModel;
use crate::NBTTag;
use vstd::prelude::*;

verus! {

/// A tag seen for reading: where it is a compound, the tags under its names
/// can be asked for.
#[derive(Debug)]
pub struct TagView<'a> {
    tag: &'a NBTTag,
}

impl<'a> TagView<'a> {
    /// Sees a tag for reading.
    pub fn new(tag: &'a NBTTag) -> (view: Self)
        ensures
            view.value() == tag@,
    {
        TagView { tag }
    }

    /// The value of the tag that is seen.
    pub closed spec fn value(&self) -> TagModel {
        self.tag@
    }

    /// The tag that is seen.
    pub fn tag(&self) -> (tag: &'a NBTTag)
        ensures
            tag@ == self.value(),
    {
        self.tag
    }

    /// The tag under that name, where the tag seen is a compound that has one.
    pub fn get(&self, key: &str) -> (found: Option<TagView<'a>>)
        ensures
            match found {
                Some(child) => self.value() matches TagModel::Compound(entries) && lookup(
                    entries,
                    key@,
                ) == Some(child.value()),
                None => !(self.value() matches TagModel::Compound(entries) && lookup(
                    entries,
                    key@,
                ) is Some),
            },
    {
        match self.tag {
            NBTTag::Compound(compound) => match compound.get(key) {
                Some(child) => Some(TagView { tag: child }),
                None => None,
            },
            _ => None,
        }
    }
}

} // verus!

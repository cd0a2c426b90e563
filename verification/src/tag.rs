//! Tags of resources, by which resources are found.

use vstd::prelude::*;

use crate::error::{Error, ErrorView};
use crate::text::{find_char, first_index_of, substring};

verus! {

/// A tag to look for: a key with a value.
#[derive(Debug)]
pub struct Tag {
    /// The key of the tag.
    pub key: String,
    /// The value of the tag.
    pub value: String,
}

/// A tag as a resource carries it: the key and the value may each be absent.
#[derive(Debug)]
pub struct ResourceTag {
    /// The key of the tag.
    pub key: Option<String>,
    /// The value of the tag.
    pub value: Option<String>,
}

/// The mathematical value of a [`Tag`].
pub struct TagView {
    pub key: Seq<char>,
    pub value: Seq<char>,
}

impl View for Tag {
    type V = TagView;

    open spec fn view(&self) -> TagView {
        TagView { key: self.key@, value: self.value@ }
    }
}

/// The tag that a resource carries, if its key and its value are present.
pub open spec fn carried(tag: ResourceTag) -> Option<TagView> {
    match (tag.key, tag.value) {
        (Some(key), Some(value)) => Some(TagView { key: key@, value: value@ }),
        _ => None,
    }
}

/// Whether a resource with the tags `haystack` carries the tag `needle`, key
/// and value.
pub open spec fn carries(haystack: Seq<ResourceTag>, needle: TagView) -> bool {
    exists|i: int| 0 <= i < haystack.len() && carried(#[trigger] haystack[i]) == Some(needle)
}

/// Whether a resource with the tags `haystack` carries every tag of `needles`.
pub open spec fn carries_all(haystack: Seq<ResourceTag>, needles: Seq<Tag>) -> bool {
    forall|j: int| 0 <= j < needles.len() ==> carries(haystack, (#[trigger] needles[j])@)
}

/// What a tag given as text must look like.
pub open spec fn key_value_form() -> Seq<char> {
    "Tag needs to be provided in the form `Key=Value`"@
}

/// The error for a text that is no tag: the parameter is invalid.
pub open spec fn malformed() -> ErrorView {
    ErrorView::InvalidParameters(key_value_form())
}

/// The tag that a text of the form `Key=Value` stands for: the key is what
/// precedes the first `=`, the value all that follows it. A text without `=`
/// stands for none.
pub open spec fn parse_key_value(s: Seq<char>) -> Option<TagView> {
    if s.contains('=') {
        Some(
            TagView {
                key: s.subrange(0, first_index_of(s, '=')),
                value: s.subrange(first_index_of(s, '=') + 1, s.len() as int),
            },
        )
    } else {
        None
    }
}

impl Tag {
    /// Read a tag given as `Key=Value`. Only the first `=` splits: the value
    /// may hold further ones. A text without `=` is an invalid parameter.
    pub fn parse(s: &str) -> (res: Result<Tag, Error>)
        ensures
            match res {
                Ok(tag) => parse_key_value(s@) == Some(tag@),
                Err(error) => parse_key_value(s@) is None && error@ == malformed(),
            },
    {
        match find_char(s, '=') {
            Some(at) => {
                let len = s.unicode_len();
                let key = substring(s, 0, at);
                let value = substring(s, at + 1, len);
                Ok(Tag { key, value })
            },
            None => Err(
                Error::InvalidParameters(
                    "Tag needs to be provided in the form `Key=Value`".to_owned(),
                ),
            ),
        }
    }

    /// Whether a tag of a resource is this tag: the same key and the same
    /// value, both present.
    pub fn is_carried_as(&self, tag: &ResourceTag) -> (res: bool)
        ensures
            res == (carried(*tag) == Some(self@)),
    {
        let same_key = match &tag.key {
            Some(key) => *key == self.key,
            None => false,
        };
        let same_value = match &tag.value {
            Some(value) => *value == self.value,
            None => false,
        };
        same_key && same_value
    }
}

/// Whether a resource with the tags `haystack` carries every tag of
/// `needles`: every needle has a tag in the haystack with an equal key and an
/// equal value.
pub fn tags_match(needles: &[Tag], haystack: &[ResourceTag]) -> (res: bool)
    ensures
        res == carries_all(haystack@, needles@),
{
    let count = needles.len();
    for j in 0..count
        invariant
            count == needles@.len(),
            forall|k: int| 0 <= k < j ==> carries(haystack@, (#[trigger] needles@[k])@),
    {
        let needle = &needles[j];
        let mut found = false;
        let len = haystack.len();
        for i in 0..len
            invariant
                len == haystack@.len(),
                found == exists|k: int|
                    0 <= k < i && carried(#[trigger] haystack@[k]) == Some(needle@),
        {
            if needle.is_carried_as(&haystack[i]) {
                found = true;
            }
        }
        if !found {
            return false;
        }
    }
    true
}

impl Clone for Tag {
    fn clone(&self) -> (res: Tag)
        ensures
            res == *self,
    {
        Tag { key: self.key.clone(), value: self.value.clone() }
    }
}

impl PartialEq for Tag {
    fn eq(&self, other: &Self) -> (res: bool) {
        let same_key = self.key == other.key;
        let same_value = self.value == other.value;
        same_key && same_value
    }
}

impl vstd::std_specs::cmp::PartialEqSpecImpl for Tag {
    open spec fn obeys_eq_spec() -> bool {
        true
    }

    open spec fn eq_spec(&self, other: &Self) -> bool {
        self@ == other@
    }
}

impl Eq for Tag {

}

impl std::str::FromStr for Tag {
    type Err = Error;

    fn from_str(s: &str) -> (res: Result<Tag, Error>)
        ensures
            match res {
                Ok(tag) => parse_key_value(s@) == Some(tag@),
                Err(error) => parse_key_value(s@) is None && error@ == malformed(),
            },
    {
        Tag::parse(s)
    }
}

} // verus!

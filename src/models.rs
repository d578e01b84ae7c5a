//! Bookmark and tag records.
use vstd::prelude::*;

use crate::codec::{decode, decode_spec, encode, encode_spec, ids_result};
use crate::error::TagError;
use crate::ident::{fresh_id, hyphenated, id_text};

verus! {

/// A stored bookmark; `tags` is its encoded tag-set.
#[derive(Debug, Clone, PartialEq, Eq)]
pub struct Bookmark {
    pub id: String,
    pub url: String,
    pub title: String,
    pub description: String,
    pub tags: String,
}

/// What a client sends to create a bookmark.
#[derive(Debug, Clone, PartialEq, Eq)]
pub struct NewBookmark {
    pub url: String,
    pub title: String,
    pub description: String,
    pub tags: String,
}

/// A stored tag.
#[derive(Debug, Clone, PartialEq, Eq)]
pub struct Tag {
    pub id: String,
    pub title: String,
}

/// What a client sends to create a tag.
#[derive(Debug, Clone, PartialEq, Eq)]
pub struct NewTag {
    pub title: String,
}

/// `new` is `b` with its tag-set text replaced by `tags`.
pub open spec fn same_but_tags(new: Bookmark, b: Bookmark, tags: Seq<char>) -> bool {
    &&& new.id == b.id
    &&& new.url == b.url
    &&& new.title == b.title
    &&& new.description == b.description
    &&& new.tags@ == tags
}

impl Bookmark {
    /// A field-by-field copy.
    pub fn duplicate(&self) -> (r: Bookmark)
        ensures
            r == *self,
    {
        Bookmark {
            id: self.id.clone(),
            url: self.url.clone(),
            title: self.title.clone(),
            description: self.description.clone(),
            tags: self.tags.clone(),
        }
    }

    /// This bookmark with its tag-set text replaced.
    pub fn with_tags(&self, tags: String) -> (r: Bookmark)
        ensures
            same_but_tags(r, *self, tags@),
    {
        Bookmark {
            id: self.id.clone(),
            url: self.url.clone(),
            title: self.title.clone(),
            description: self.description.clone(),
            tags,
        }
    }

    /// The decoded tag-set.
    pub fn tag_ids(&self) -> (r: Result<Vec<u128>, TagError>)
        ensures
            ids_result(r) == decode_spec(self.tags@),
    {
        decode(self.tags.as_str())
    }

    /// Checks a full-record replacement: its tag-set must decode, and is
    /// stored in canonical encoding; every other field is kept.
    pub fn normalized(&self) -> (r: Result<Bookmark, TagError>)
        ensures
            decode_spec(self.tags@) is Err ==> r == Err::<Bookmark, TagError>(TagError::MalformedTagSet),
            decode_spec(self.tags@) is Ok ==> r is Ok && same_but_tags(
                r->Ok_0,
                *self,
                encode_spec(decode_spec(self.tags@)->Ok_0),
            ),
    {
        match self.tag_ids() {
            Err(e) => Err(e),
            Ok(ids) => Ok(self.with_tags(encode(&ids))),
        }
    }
}

impl NewBookmark {
    /// The bookmark that this request creates under identifier `id`, with
    /// its tag-set checked and stored in canonical encoding.
    pub fn into_bookmark(self, id: u128) -> (r: Result<Bookmark, TagError>)
        ensures
            decode_spec(self.tags@) is Err ==> r == Err::<Bookmark, TagError>(TagError::MalformedTagSet),
            decode_spec(self.tags@) is Ok ==> r is Ok && ({
                let b = r->Ok_0;
                &&& b.id@ == hyphenated(id)
                &&& b.url == self.url
                &&& b.title == self.title
                &&& b.description == self.description
                &&& b.tags@ == encode_spec(decode_spec(self.tags@)->Ok_0)
            }),
    {
        match decode(self.tags.as_str()) {
            Err(e) => Err(e),
            Ok(ids) => Ok(
                Bookmark {
                    id: id_text(id),
                    url: self.url,
                    title: self.title,
                    description: self.description,
                    tags: encode(&ids),
                },
            ),
        }
    }
}

/// Creates a bookmark under a fresh random identifier.
pub fn create_bookmark(data: NewBookmark) -> (r: Result<Bookmark, TagError>)
    ensures
        decode_spec(data.tags@) is Err ==> r == Err::<Bookmark, TagError>(TagError::MalformedTagSet),
        decode_spec(data.tags@) is Ok ==> r is Ok && ({
            let b = r->Ok_0;
            &&& exists|v: u128| b.id@ == hyphenated(v)
            &&& b.url == data.url
            &&& b.title == data.title
            &&& b.description == data.description
            &&& b.tags@ == encode_spec(decode_spec(data.tags@)->Ok_0)
        }),
{
    let id = fresh_id();
    data.into_bookmark(id)
}

impl NewTag {
    /// The tag that this request creates under identifier `id`.
    pub fn into_tag(self, id: u128) -> (r: Tag)
        ensures
            r.id@ == hyphenated(id),
            r.title == self.title,
    {
        Tag { id: id_text(id), title: self.title }
    }
}

/// Creates a tag under a fresh random identifier.
pub fn create_tag(data: NewTag) -> (r: Tag)
    ensures
        exists|v: u128| r.id@ == hyphenated(v),
        r.title == data.title,
{
    let id = fresh_id();
    data.into_tag(id)
}

} // verus!

//! The tag-intersection filter: a bookmark matches when it carries every
//! requested tag.
use vstd::prelude::*;

use crate::codec::{decode, decode_spec, ids_result};
use crate::error::TagError;
use crate::models::Bookmark;

verus! {

/// All-of semantics: every requested identifier is among the bookmark's.
/// An empty request is carried by every tag-set.
pub open spec fn carries_all(tags: Seq<u128>, requested: Seq<u128>) -> bool {
    requested.to_set().subset_of(tags.to_set())
}

/// A bookmark matches when its tag-set decodes and carries every requested
/// identifier.
pub open spec fn bookmark_matches(b: Bookmark, requested: Seq<u128>) -> bool {
    decode_spec(b.tags@) is Ok && carries_all(decode_spec(b.tags@)->Ok_0, requested)
}

/// Every bookmark's tag-set decodes.
pub open spec fn all_decode(bs: Seq<Bookmark>) -> bool {
    forall|i: int| 0 <= i < bs.len() ==> (#[trigger] decode_spec(bs[i].tags@)) is Ok
}

/// The bookmarks that match, in their original order.
pub open spec fn select(bs: Seq<Bookmark>, requested: Seq<u128>) -> Seq<Bookmark>
    decreases bs.len(),
{
    if bs.len() == 0 {
        Seq::empty()
    } else if bookmark_matches(bs.last(), requested) {
        select(bs.drop_last(), requested).push(bs.last())
    } else {
        select(bs.drop_last(), requested)
    }
}

/// Whether `ids` holds `v`.
pub fn contains_id(ids: &Vec<u128>, v: u128) -> (r: bool)
    ensures
        r == ids@.contains(v),
{
    let mut i: usize = 0;
    while i < ids.len()
        invariant
            i <= ids.len(),
            forall|j: int| 0 <= j < i ==> ids@[j] != v,
        decreases ids.len() - i,
    {
        if ids[i] == v {
            return true;
        }
        i = i + 1;
    }
    false
}

/// Whether a bookmark's tag-set carries every requested identifier.
pub fn matches(bookmark_tags: &Vec<u128>, requested: &Vec<u128>) -> (r: bool)
    ensures
        r == carries_all(bookmark_tags@, requested@),
{
    if requested.len() == 0 {
        // nothing requested: every bookmark matches
        assert(requested@.to_set() =~= Set::<u128>::empty());
        return true;
    }
    let mut i: usize = 0;
    while i < requested.len()
        invariant
            i <= requested.len(),
            forall|j: int| 0 <= j < i ==> bookmark_tags@.contains(#[trigger] requested@[j]),
        decreases requested.len() - i,
    {
        if !contains_id(bookmark_tags, requested[i]) {
            assert(requested@.to_set().contains(requested@[i as int]));
            return false;
        }
        i = i + 1;
    }
    assert forall|x: u128| requested@.to_set().contains(x) implies bookmark_tags@.to_set().contains(
        x,
    ) by {
        let j = choose|j: int| 0 <= j < requested@.len() && requested@[j] == x;
        assert(bookmark_tags@.contains(requested@[j]));
    }
    true
}

/// Reads a client's comma-separated filter; an identifier that is not
/// well-formed is the client's error, `InvalidFilterInput`.
pub fn parse_filter(text: &str) -> (r: Result<Vec<u128>, TagError>)
    ensures
        decode_spec(text@) is Ok ==> ids_result(r) == decode_spec(text@),
        decode_spec(text@) is Err ==> r == Err::<Vec<u128>, TagError>(TagError::InvalidFilterInput),
{
    match decode(text) {
        Ok(ids) => Ok(ids),
        Err(_) => Err(TagError::InvalidFilterInput),
    }
}

/// Keeps the bookmarks that carry every requested identifier, in order. A
/// stored tag-set that does not decode fails the whole filter with
/// `MalformedTagSet`.
pub fn filter_bookmarks(bookmarks: &Vec<Bookmark>, requested: &Vec<u128>) -> (r: Result<
    Vec<Bookmark>,
    TagError,
>)
    ensures
        r is Ok <==> all_decode(bookmarks@),
        r is Ok ==> r->Ok_0@ == select(bookmarks@, requested@),
        r is Err ==> r->Err_0 == TagError::MalformedTagSet,
{
    let mut out: Vec<Bookmark> = Vec::new();
    let mut i: usize = 0;
    while i < bookmarks.len()
        invariant
            i <= bookmarks.len(),
            all_decode(bookmarks@.subrange(0, i as int)),
            out@ == select(bookmarks@.subrange(0, i as int), requested@),
        decreases bookmarks.len() - i,
    {
        let b = &bookmarks[i];
        let ghost prefix = bookmarks@.subrange(0, i + 1);
        assert(prefix.drop_last() =~= bookmarks@.subrange(0, i as int));
        assert(prefix.last() == *b);
        match b.tag_ids() {
            Err(_) => {
                assert(decode_spec(bookmarks@[i as int].tags@) is Err);
                return Err(TagError::MalformedTagSet);
            },
            Ok(ids) => {
                if matches(&ids, requested) {
                    out.push(b.duplicate());
                }
            },
        }
        assert forall|j: int| 0 <= j < prefix.len() implies (#[trigger] decode_spec(
            prefix[j].tags@,
        )) is Ok by {
            if j < i {
                assert(prefix[j] == bookmarks@.subrange(0, i as int)[j]);
            }
        }
        i = i + 1;
    }
    assert(bookmarks@.subrange(0, bookmarks.len() as int) =~= bookmarks@);
    Ok(out)
}

/// The filter as a client asks for it: a comma-separated text of requested
/// identifiers, checked before any bookmark is looked at.
pub fn filter_by_tag_text(bookmarks: &Vec<Bookmark>, requested: &str) -> (r: Result<
    Vec<Bookmark>,
    TagError,
>)
    ensures
        decode_spec(requested@) is Err ==> r == Err::<Vec<Bookmark>, TagError>(
            TagError::InvalidFilterInput,
        ),
        decode_spec(requested@) is Ok ==> {
            let req = decode_spec(requested@)->Ok_0;
            &&& r is Ok <==> all_decode(bookmarks@)
            &&& r is Ok ==> r->Ok_0@ == select(bookmarks@, req)
            &&& r is Err ==> r->Err_0 == TagError::MalformedTagSet
        },
{
    let req = parse_filter(requested)?;
    filter_bookmarks(bookmarks, &req)
}

} // verus!

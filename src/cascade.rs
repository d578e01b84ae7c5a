//! The tag-deletion cascade: every bookmark that references a deleted tag
//! is rewritten without it, by decoding, filtering and re-encoding.
use vstd::prelude::*;

use crate::codec::{decode_spec, encode, encode_spec, lemma_round_trip};
use crate::error::TagError;
use crate::filter::{all_decode, contains_id};
use crate::ident::{hyphenated, lemma_hyphenated_has_no_comma};
use crate::models::{same_but_tags, Bookmark};

verus! {

/// `ids` without any occurrence of `tag`, the rest in order.
pub open spec fn without(ids: Seq<u128>, tag: u128) -> Seq<u128>
    decreases ids.len(),
{
    if ids.len() == 0 {
        Seq::empty()
    } else if ids.last() == tag {
        without(ids.drop_last(), tag)
    } else {
        without(ids.drop_last(), tag).push(ids.last())
    }
}

/// Whether a bookmark's decoded tag-set references `tag`.
pub open spec fn references(b: Bookmark, tag: u128) -> bool {
    decode_spec(b.tags@) is Ok && decode_spec(b.tags@)->Ok_0.contains(tag)
}

/// `new` is `b` rewritten without `tag`: same record, tag-set re-encoded
/// from the decoded identifiers less `tag`.
pub open spec fn is_rewrite(new: Bookmark, b: Bookmark, tag: u128) -> bool {
    same_but_tags(new, b, encode_spec(without(decode_spec(b.tags@)->Ok_0, tag)))
}

/// The candidates that reference `tag`, in order.
pub open spec fn referencing(bs: Seq<Bookmark>, tag: u128) -> Seq<Bookmark>
    decreases bs.len(),
{
    if bs.len() == 0 {
        Seq::empty()
    } else if references(bs.last(), tag) {
        referencing(bs.drop_last(), tag).push(bs.last())
    } else {
        referencing(bs.drop_last(), tag)
    }
}

/// `plan` rewrites, one for one and in order, exactly the candidates that
/// reference `tag`.
pub open spec fn is_plan(plan: Seq<Bookmark>, candidates: Seq<Bookmark>, tag: u128) -> bool {
    let targets = referencing(candidates, tag);
    &&& plan.len() == targets.len()
    &&& forall|i: int| 0 <= i < plan.len() ==> is_rewrite(#[trigger] plan[i], targets[i], tag)
}

proof fn lemma_push_contains(s: Seq<u128>, a: u128, x: u128)
    ensures
        s.push(a).contains(x) <==> (s.contains(x) || a == x),
{
    if s.push(a).contains(x) {
        let j = choose|j: int| 0 <= j < s.len() + 1 && s.push(a)[j] == x;
        if j < s.len() {
            assert(s[j] == x);
        }
    }
    if s.contains(x) {
        let j = choose|j: int| 0 <= j < s.len() && s[j] == x;
        assert(s.push(a)[j] == x);
    }
    assert(s.push(a)[s.len() as int] == a);
}

proof fn lemma_without_facts(ids: Seq<u128>, tag: u128)
    ensures
        !without(ids, tag).contains(tag),
        forall|x: u128| x != tag ==> (ids.contains(x) <==> #[trigger] without(ids, tag).contains(x)),
    decreases ids.len(),
{
    if ids.len() > 0 {
        let rest = ids.drop_last();
        let w = without(rest, tag);
        lemma_without_facts(rest, tag);
        assert(rest.push(ids.last()) =~= ids);
        lemma_push_contains(w, ids.last(), tag);
        assert forall|x: u128| x != tag implies (ids.contains(x) <==> #[trigger] without(
            ids,
            tag,
        ).contains(x)) by {
            lemma_push_contains(rest, ids.last(), x);
            lemma_push_contains(w, ids.last(), x);
        }
    }
}

/// A rewritten bookmark's tag-set decodes to the old identifiers less the
/// deleted tag: it no longer references the tag, and keeps every other one.
pub proof fn lemma_rewrite_clears_tag(new: Bookmark, b: Bookmark, tag: u128)
    requires
        decode_spec(b.tags@) is Ok,
        is_rewrite(new, b, tag),
    ensures
        decode_spec(new.tags@) == Ok::<Seq<u128>, TagError>(
            without(decode_spec(b.tags@)->Ok_0, tag),
        ),
        !references(new, tag),
        forall|x: u128|
            x != tag ==> (decode_spec(b.tags@)->Ok_0.contains(x) <==> #[trigger] decode_spec(
                new.tags@,
            )->Ok_0.contains(x)),
{
    let ids = decode_spec(b.tags@)->Ok_0;
    lemma_round_trip(without(ids, tag));
    lemma_without_facts(ids, tag);
}

/// Every bookmark that a cascade plan writes is free of the deleted tag.
pub proof fn lemma_plan_clears_tag(plan: Seq<Bookmark>, candidates: Seq<Bookmark>, tag: u128)
    requires
        is_plan(plan, candidates, tag),
    ensures
        forall|i: int| 0 <= i < plan.len() ==> !references(#[trigger] plan[i], tag),
{
    assert forall|i: int| 0 <= i < plan.len() implies !references(#[trigger] plan[i], tag) by {
        lemma_referencing_elems(candidates, tag, i);
        lemma_rewrite_clears_tag(plan[i], referencing(candidates, tag)[i], tag);
    }
}

proof fn lemma_referencing_elems(bs: Seq<Bookmark>, tag: u128, i: int)
    requires
        0 <= i < referencing(bs, tag).len(),
    ensures
        references(referencing(bs, tag)[i], tag),
    decreases bs.len(),
{
    if bs.len() > 0 {
        let p = referencing(bs.drop_last(), tag);
        if i < p.len() {
            lemma_referencing_elems(bs.drop_last(), tag, i);
        }
    }
}

/// `t` occurs in `s` as a contiguous piece.
pub open spec fn occurs_in(t: Seq<char>, s: Seq<char>) -> bool {
    exists|k: int| 0 <= k && k + t.len() <= s.len() && #[trigger] s.subrange(k, k + t.len()) == t
}

proof fn lemma_encoding_shows_each_id(ids: Seq<u128>, v: u128)
    requires
        ids.contains(v),
    ensures
        occurs_in(hyphenated(v), encode_spec(ids)),
    decreases ids.len(),
{
    let e = encode_spec(ids);
    let h = hyphenated(v);
    lemma_hyphenated_has_no_comma(v);
    if ids.len() == 1 {
        assert(ids[0] == v);
        assert(e.subrange(0int, 0int + h.len()) =~= h);
    } else if ids.last() == v {
        let p = encode_spec(ids.drop_last());
        let k: int = p.len() as int + 1;
        assert(e.subrange(k, k + h.len()) =~= h);
    } else {
        let p = encode_spec(ids.drop_last());
        let j = choose|j: int| 0 <= j < ids.len() && ids[j] == v;
        assert(ids.drop_last()[j] == v);
        lemma_encoding_shows_each_id(ids.drop_last(), v);
        let k = choose|k: int| 0 <= k && k + h.len() <= p.len() && #[trigger] p.subrange(k, k + h.len()) == h;
        assert(e.subrange(k, k + h.len()) =~= p.subrange(k, k + h.len()));
    }
}

/// A bookmark whose tag-set is stored in canonical encoding and references
/// `tag` holds the canonical text of `tag`: a substring search for that text
/// is a pre-filter that misses none of the cascade's targets.
pub proof fn lemma_prefilter_finds_references(b: Bookmark, ids: Seq<u128>, tag: u128)
    requires
        b.tags@ == encode_spec(ids),
        references(b, tag),
    ensures
        occurs_in(hyphenated(tag), b.tags@),
{
    lemma_round_trip(ids);
    lemma_encoding_shows_each_id(ids, tag);
}

/// The identifiers without `tag`, order kept.
pub fn remove_id(ids: &Vec<u128>, tag: u128) -> (r: Vec<u128>)
    ensures
        r@ == without(ids@, tag),
{
    let mut out: Vec<u128> = Vec::new();
    let mut i: usize = 0;
    while i < ids.len()
        invariant
            i <= ids.len(),
            out@ == without(ids@.subrange(0, i as int), tag),
        decreases ids.len() - i,
    {
        let ghost prefix = ids@.subrange(0, i + 1);
        assert(prefix.drop_last() =~= ids@.subrange(0, i as int));
        if ids[i] != tag {
            out.push(ids[i]);
        }
        i = i + 1;
    }
    assert(ids@.subrange(0, ids.len() as int) =~= ids@);
    out
}

/// The rewrite of one candidate: `None` when it does not reference `tag`,
/// its rewrite without `tag` when it does, and `MalformedTagSet` when its
/// tag-set does not decode (a cascade never skips such a bookmark).
pub fn strip_tag(b: &Bookmark, tag: u128) -> (r: Result<Option<Bookmark>, TagError>)
    ensures
        decode_spec(b.tags@) is Err ==> r == Err::<Option<Bookmark>, TagError>(
            TagError::MalformedTagSet,
        ),
        decode_spec(b.tags@) is Ok && !references(*b, tag) ==> r == Ok::<
            Option<Bookmark>,
            TagError,
        >(None),
        references(*b, tag) ==> r is Ok && r->Ok_0 is Some && is_rewrite(r->Ok_0->Some_0, *b, tag),
{
    let ids = b.tag_ids()?;
    if !contains_id(&ids, tag) {
        return Ok(None);
    }
    let kept = remove_id(&ids, tag);
    Ok(Some(b.with_tags(encode(&kept))))
}

/// The rewrites that deleting `tag` requires of `candidates`: one per
/// candidate that references it, in order. Fails as a whole with
/// `MalformedTagSet` when any candidate's tag-set does not decode.
pub fn plan_cascade(tag: u128, candidates: &Vec<Bookmark>) -> (r: Result<Vec<Bookmark>, TagError>)
    ensures
        r is Ok <==> all_decode(candidates@),
        r is Ok ==> is_plan(r->Ok_0@, candidates@, tag),
        r is Err ==> r->Err_0 == TagError::MalformedTagSet,
{
    let mut out: Vec<Bookmark> = Vec::new();
    let mut i: usize = 0;
    while i < candidates.len()
        invariant
            i <= candidates.len(),
            all_decode(candidates@.subrange(0, i as int)),
            is_plan(out@, candidates@.subrange(0, i as int), tag),
        decreases candidates.len() - i,
    {
        let b = &candidates[i];
        let ghost prefix = candidates@.subrange(0, i + 1);
        let ghost before = out@;
        assert(prefix.drop_last() =~= candidates@.subrange(0, i as int));
        assert(prefix.last() == *b);
        match strip_tag(b, tag) {
            Err(e) => {
                assert(decode_spec(candidates@[i as int].tags@) is Err);
                return Err(e);
            },
            Ok(None) => {},
            Ok(Some(nb)) => {
                out.push(nb);
                assert forall|j: int| 0 <= j < out@.len() implies is_rewrite(
                    #[trigger] out@[j],
                    referencing(prefix, tag)[j],
                    tag,
                ) by {
                    if j < before.len() {
                        assert(out@[j] == before[j]);
                    }
                }
            },
        }
        assert forall|j: int| 0 <= j < prefix.len() implies (#[trigger] decode_spec(
            prefix[j].tags@,
        )) is Ok by {
            if j < i {
                assert(prefix[j] == candidates@.subrange(0, i as int)[j]);
            }
        }
        i = i + 1;
    }
    assert(candidates@.subrange(0, candidates.len() as int) =~= candidates@);
    Ok(out)
}

} // verus!

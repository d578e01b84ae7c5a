//! The tag-set codec: a sequence of identifiers as one comma-delimited text.
use vstd::prelude::*;
use vstd::string::StrSliceExecFns;
use vstd::string::StringExecFns;

use crate::error::TagError;
use crate::ident::{hyphenated, id_of_text, id_text, parse_id, lemma_hyphenated_has_no_comma,
    lemma_text_round_trip};

verus! {

/// The encoding of `ids`: their canonical texts joined by commas.
pub open spec fn encode_spec(ids: Seq<u128>) -> Seq<char>
    decreases ids.len(),
{
    if ids.len() == 0 {
        Seq::empty()
    } else if ids.len() == 1 {
        hyphenated(ids[0])
    } else {
        encode_spec(ids.drop_last()) + seq![','] + hyphenated(ids.last())
    }
}

/// The pieces of `s` between commas, in order; the empty text is one empty
/// piece.
pub open spec fn segments(s: Seq<char>) -> Seq<Seq<char>>
    decreases s.len(),
{
    if s.len() == 0 {
        seq![Seq::empty()]
    } else if s.last() == ',' {
        segments(s.drop_last()).push(Seq::empty())
    } else {
        let p = segments(s.drop_last());
        p.update(p.len() - 1, p.last().push(s.last()))
    }
}

/// A piece is an identifier when it is not empty and reads as one.
pub open spec fn segment_ok(seg: Seq<char>) -> bool {
    seg.len() > 0 && id_of_text(seg) is Some
}

/// The identifiers that well-formed pieces denote.
pub open spec fn segment_ids(segs: Seq<Seq<char>>) -> Seq<u128> {
    segs.map_values(|seg: Seq<char>| id_of_text(seg)->Some_0)
}

/// The decoding of a tag-set text: empty for the empty text, otherwise one
/// identifier per comma-separated piece, and `MalformedTagSet` as soon as
/// one piece is empty or is no identifier.
pub open spec fn decode_spec(s: Seq<char>) -> Result<Seq<u128>, TagError> {
    if s.len() == 0 {
        Ok(Seq::empty())
    } else if forall|i: int| 0 <= i < segments(s).len() ==> segment_ok(#[trigger] segments(s)[i]) {
        Ok(segment_ids(segments(s)))
    } else {
        Err(TagError::MalformedTagSet)
    }
}

/// A text without commas is its own only piece.
proof fn lemma_segments_of_plain(s: Seq<char>)
    requires
        !s.contains(','),
    ensures
        segments(s) == seq![s],
    decreases s.len(),
{
    if s.len() > 0 {
        assert(!s.drop_last().contains(',')) by {
            if s.drop_last().contains(',') {
                let i = choose|i: int| 0 <= i < s.drop_last().len() && s.drop_last()[i] == ',';
                assert(s[i] == ',');
            }
        }
        lemma_segments_of_plain(s.drop_last());
        assert(s.last() != ',') by {
            assert(s[s.len() - 1] == s.last());
        }
        assert(s.drop_last().push(s.last()) =~= s);
        assert(segments(s) =~= seq![s]);
    } else {
        assert(s =~= Seq::<char>::empty());
    }
}

/// Appending a comma and a comma-free text adds that text as one more piece.
proof fn lemma_segments_append(a: Seq<char>, b: Seq<char>)
    requires
        !b.contains(','),
    ensures
        segments(a + seq![','] + b) == segments(a).push(b),
    decreases b.len(),
{
    let t = a + seq![','] + b;
    if b.len() == 0 {
        assert(t.drop_last() =~= a);
        assert(t.last() == ',');
        assert(b =~= Seq::<char>::empty());
    } else {
        assert(!b.drop_last().contains(',')) by {
            if b.drop_last().contains(',') {
                let i = choose|i: int| 0 <= i < b.drop_last().len() && b.drop_last()[i] == ',';
                assert(b[i] == ',');
            }
        }
        lemma_segments_append(a, b.drop_last());
        assert(t.drop_last() =~= a + seq![','] + b.drop_last());
        assert(t.last() == b.last());
        assert(b.last() != ',') by {
            assert(b[b.len() - 1] == b.last());
        }
        assert(b.drop_last().push(b.last()) =~= b);
        assert(segments(t) =~= segments(a).push(b));
    }
}

/// The pieces of an encoding are the canonical texts of its identifiers.
proof fn lemma_segments_of_encoding(ids: Seq<u128>)
    requires
        ids.len() > 0,
    ensures
        segments(encode_spec(ids)) == ids.map_values(|v: u128| hyphenated(v)),
    decreases ids.len(),
{
    if ids.len() == 1 {
        lemma_hyphenated_has_no_comma(ids[0]);
        lemma_segments_of_plain(hyphenated(ids[0]));
        assert(ids.map_values(|v: u128| hyphenated(v)) =~= seq![hyphenated(ids[0])]);
    } else {
        lemma_segments_of_encoding(ids.drop_last());
        lemma_hyphenated_has_no_comma(ids.last());
        lemma_segments_append(encode_spec(ids.drop_last()), hyphenated(ids.last()));
        assert(ids.map_values(|v: u128| hyphenated(v)) =~= ids.drop_last().map_values(
            |v: u128| hyphenated(v),
        ).push(hyphenated(ids.last())));
    }
}

/// Decoding an encoding gives back the identifiers, in order.
pub proof fn lemma_round_trip(ids: Seq<u128>)
    ensures
        decode_spec(encode_spec(ids)) == Ok::<Seq<u128>, TagError>(ids),
{
    if ids.len() == 0 {
        assert(encode_spec(ids) =~= Seq::<char>::empty());
        assert(ids =~= Seq::<u128>::empty());
    } else {
        let text = encode_spec(ids);
        lemma_segments_of_encoding(ids);
        let segs = segments(text);
        assert(text.len() > 0) by {
            assert(segs.len() == ids.len());
            if text.len() == 0 {
                assert(segs == seq![Seq::<char>::empty()]);
                lemma_hyphenated_has_no_comma(ids[0]);
                assert(segs[0] == hyphenated(ids[0]));
            }
        }
        assert forall|i: int| 0 <= i < segs.len() implies segment_ok(#[trigger] segs[i]) by {
            lemma_hyphenated_has_no_comma(ids[i]);
            lemma_text_round_trip(ids[i]);
        }
        assert forall|i: int| 0 <= i < ids.len() implies segment_ids(segs)[i] == ids[i] by {
            lemma_text_round_trip(ids[i]);
        }
        assert(segment_ids(segs) =~= ids);
    }
}

/// The empty text decodes to no identifiers, and no identifiers encode to
/// the empty text.
pub proof fn lemma_empty_identity()
    ensures
        decode_spec(Seq::empty()) == Ok::<Seq<u128>, TagError>(Seq::empty()),
        encode_spec(Seq::empty()) == Seq::<char>::empty(),
{
}

/// Encodes identifiers as their canonical texts joined by commas.
pub fn encode(ids: &Vec<u128>) -> (r: String)
    ensures
        r@ == encode_spec(ids@),
{
    let mut out = String::new();
    let mut i: usize = 0;
    while i < ids.len()
        invariant
            i <= ids.len(),
            out@ == encode_spec(ids@.subrange(0, i as int)),
        decreases ids.len() - i,
    {
        let piece = id_text(ids[i]);
        proof {
            reveal_strlit(",");
        }
        if i > 0 {
            out.append(",");
        }
        out.append(piece.as_str());
        proof {
            let next = ids@.subrange(0, i + 1);
            assert(next.drop_last() =~= ids@.subrange(0, i as int));
            assert(next.last() == ids@[i as int]);
            if i == 0 {
                assert(encode_spec(ids@.subrange(0, 0)) =~= Seq::<char>::empty());
                assert(next.len() == 1 && next[0] == ids@[0]);
            }
            assert(out@ =~= encode_spec(next));
        }
        i = i + 1;
    }
    assert(ids@.subrange(0, ids.len() as int) =~= ids@);
    out
}

/// The view of a decoding outcome.
pub open spec fn ids_result(r: Result<Vec<u128>, TagError>) -> Result<Seq<u128>, TagError> {
    match r {
        Ok(v) => Ok(v@),
        Err(e) => Err(e),
    }
}

/// Splits `s` at every comma, keeping empty pieces.
fn split_commas(s: &str) -> (r: Vec<String>)
    ensures
        r@.map_values(|p: String| p@) == segments(s@),
{
    let n = s.unicode_len();
    let mut out: Vec<String> = Vec::new();
    let mut start: usize = 0;
    let mut i: usize = 0;
    assert(s@.subrange(0, 0) =~= Seq::<char>::empty());
    assert(out@.map_values(|p: String| p@).push(s@.subrange(0, 0)) =~= seq![Seq::<char>::empty()]);
    while i < n
        invariant
            n == s@.len(),
            start <= i <= n,
            segments(s@.subrange(0, i as int)) == out@.map_values(|p: String| p@).push(
                s@.subrange(start as int, i as int),
            ),
        decreases n - i,
    {
        let c = s.get_char(i);
        let ghost before = out@;
        let ghost old_start = start;
        let t = Ghost(s@.subrange(0, i + 1));
        assert(t@.drop_last() =~= s@.subrange(0, i as int));
        assert(t@.last() == c);
        if c == ',' {
            let piece = s.substring_char(start, i);
            out.push(piece.to_owned());
            start = i + 1;
            assert(out@.map_values(|p: String| p@) =~= before.map_values(|p: String| p@).push(
                s@.subrange(old_start as int, i as int),
            ));
            assert(s@.subrange(start as int, i + 1) =~= Seq::<char>::empty());
        } else {
            assert(s@.subrange(start as int, i + 1) =~= s@.subrange(start as int, i as int).push(c));
        }
        assert(segments(t@) =~= out@.map_values(|p: String| p@).push(
            s@.subrange(start as int, i + 1),
        ));
        i = i + 1;
    }
    let last = s.substring_char(start, n);
    let ghost before = out@;
    out.push(last.to_owned());
    assert(s@.subrange(0, n as int) =~= s@);
    assert(out@.map_values(|p: String| p@) =~= before.map_values(|p: String| p@).push(
        s@.subrange(start as int, n as int),
    ));
    out
}

/// Decodes a tag-set text; the empty text is the empty set, and an empty
/// piece or a piece that is no identifier fails with `MalformedTagSet`.
pub fn decode(text: &str) -> (r: Result<Vec<u128>, TagError>)
    ensures
        ids_result(r) == decode_spec(text@),
{
    if text.unicode_len() == 0 {
        return Ok(Vec::new());
    }
    let pieces = split_commas(text);
    let ghost segs = segments(text@);
    let mut out: Vec<u128> = Vec::new();
    let mut i: usize = 0;
    while i < pieces.len()
        invariant
            text@.len() > 0,
            segs == segments(text@),
            pieces@.map_values(|p: String| p@) == segs,
            i <= pieces.len(),
            out@.len() == i,
            forall|j: int| 0 <= j < i ==> segment_ok(#[trigger] segs[j]),
            forall|j: int| 0 <= j < i ==> out@[j] == id_of_text(#[trigger] segs[j])->Some_0,
        decreases pieces.len() - i,
    {
        let piece = pieces[i].as_str();
        assert(piece@ == segs[i as int]);
        if piece.unicode_len() == 0 {
            assert(!segment_ok(segs[i as int]));
            return Err(TagError::MalformedTagSet);
        }
        match parse_id(piece) {
            None => {
                assert(!segment_ok(segs[i as int]));
                return Err(TagError::MalformedTagSet);
            },
            Some(v) => {
                out.push(v);
            },
        }
        i = i + 1;
    }
    assert(out@ =~= segment_ids(segs));
    Ok(out)
}

} // verus!

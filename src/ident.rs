//! Tag identifiers: 128-bit UUID values and their canonical text form.
use vstd::prelude::*;

verus! {

/// The lowercase hexadecimal digit for `n` (for `0 <= n < 16`).
pub open spec fn hex_char(n: u128) -> char {
    if n == 0 { '0' } else if n == 1 { '1' } else if n == 2 { '2' } else if n == 3 { '3' }
    else if n == 4 { '4' } else if n == 5 { '5' } else if n == 6 { '6' } else if n == 7 { '7' }
    else if n == 8 { '8' } else if n == 9 { '9' } else if n == 10 { 'a' } else if n == 11 { 'b' }
    else if n == 12 { 'c' } else if n == 13 { 'd' } else if n == 14 { 'e' } else { 'f' }
}

/// The `k`-th hexadecimal digit of `v`, counting from the most significant.
pub open spec fn nibble(v: u128, k: int) -> u128 {
    (v >> ((124 - 4 * k) as u128)) & 15u128
}

/// Text positions of the four hyphens of the canonical form.
pub open spec fn is_hyphen_pos(i: int) -> bool {
    i == 8 || i == 13 || i == 18 || i == 23
}

/// The digit shown at text position `i` of the canonical form.
pub open spec fn digit_at(i: int) -> int {
    if i < 8 { i } else if i < 13 { i - 1 } else if i < 18 { i - 2 } else if i < 23 { i - 3 } else { i - 4 }
}

/// The text position that shows digit `k` of the canonical form.
pub open spec fn pos_of_digit(k: int) -> int {
    if k < 8 { k } else if k < 12 { k + 1 } else if k < 16 { k + 2 } else if k < 20 { k + 3 } else { k + 4 }
}

/// The canonical text of an identifier: 32 lowercase hexadecimal digits in
/// groups of 8, 4, 4, 4 and 12, joined by hyphens.
pub open spec fn hyphenated(v: u128) -> Seq<char> {
    Seq::new(36, |i: int| if is_hyphen_pos(i) { '-' } else { hex_char(nibble(v, digit_at(i))) })
}

/// What uuid's parser makes of a text that is not in canonical form
/// (it also takes upper case, the simple, braced and URN forms).
pub uninterp spec fn parsed_uuid(s: Seq<char>) -> Option<u128>;

/// The identifier that a text denotes: exact on the canonical form, and
/// uuid's own reading of every other text.
pub open spec fn id_of_text(s: Seq<char>) -> Option<u128> {
    if exists|v: u128| hyphenated(v) == s {
        Some(choose|v: u128| hyphenated(v) == s)
    } else {
        parsed_uuid(s)
    }
}

proof fn lemma_nibble_bound(v: u128, k: int)
    ensures
        nibble(v, k) < 16,
{
    let s = (124 - 4 * k) as u128;
    assert((v >> s) & 15u128 < 16) by (bit_vector);
}

proof fn lemma_shift_step(v: u128, s: u128)
    requires
        s <= 120,
    ensures
        v >> s == ((v >> ((s + 4) as u128)) << 4u128) | ((v >> s) & 15u128),
{
    assert(v >> s == ((v >> ((s + 4) as u128)) << 4u128) | ((v >> s) & 15u128)) by (bit_vector)
        requires s <= 120;
}

proof fn lemma_top_nibble(v: u128)
    ensures
        v >> 124u128 == (v >> 124u128) & 15u128,
{
    assert(v >> 124u128 == (v >> 124u128) & 15u128) by (bit_vector);
}

/// Values with the same digits agree on every suffix shift `4 * j`.
proof fn lemma_shifts_agree(v: u128, w: u128, j: int)
    requires
        0 <= j <= 31,
        forall|k: int| 0 <= k < 32 ==> nibble(v, k) == nibble(w, k),
    ensures
        v >> ((4 * j) as u128) == w >> ((4 * j) as u128),
    decreases 31 - j,
{
    if j == 31 {
        assert(nibble(v, 0) == nibble(w, 0));
        lemma_top_nibble(v);
        lemma_top_nibble(w);
    } else {
        lemma_shifts_agree(v, w, j + 1);
        let s = (4 * j) as u128;
        lemma_shift_step(v, s);
        lemma_shift_step(w, s);
        assert(nibble(v, 31 - j) == nibble(w, 31 - j));
        assert((124 - 4 * (31 - j)) as u128 == s);
        assert((s + 4) as u128 == (4 * (j + 1)) as u128);
    }
}

/// Two values with the same 32 digits are the same value.
proof fn lemma_digits_determine(v: u128, w: u128)
    requires
        forall|k: int| 0 <= k < 32 ==> nibble(v, k) == nibble(w, k),
    ensures
        v == w,
{
    lemma_shifts_agree(v, w, 0);
    assert(v >> 0u128 == v) by (bit_vector);
    assert(w >> 0u128 == w) by (bit_vector);
}

proof fn lemma_hex_char_injective(a: u128, b: u128)
    requires
        a < 16,
        b < 16,
        hex_char(a) == hex_char(b),
    ensures
        a == b,
{
}

/// Distinct identifiers have distinct canonical texts.
pub proof fn lemma_hyphenated_injective(v: u128, w: u128)
    requires
        hyphenated(v) == hyphenated(w),
    ensures
        v == w,
{
    assert forall|k: int| 0 <= k < 32 implies nibble(v, k) == nibble(w, k) by {
        let i = pos_of_digit(k);
        assert(hyphenated(v)[i] == hyphenated(w)[i]);
        assert(0 <= i < 36 && !is_hyphen_pos(i) && digit_at(i) == k);
        assert(hyphenated(v)[i] == hex_char(nibble(v, k)));
        assert(hyphenated(w)[i] == hex_char(nibble(w, k)));
        lemma_nibble_bound(v, k);
        lemma_nibble_bound(w, k);
        lemma_hex_char_injective(nibble(v, k), nibble(w, k));
    }
    lemma_digits_determine(v, w);
}

/// The canonical text of an identifier reads back as that identifier.
pub proof fn lemma_text_round_trip(v: u128)
    ensures
        id_of_text(hyphenated(v)) == Some(v),
{
    let s = hyphenated(v);
    assert(exists|u: u128| hyphenated(u) == s);
    let u = choose|u: u128| hyphenated(u) == s;
    lemma_hyphenated_injective(u, v);
}

/// The canonical text holds no comma.
pub proof fn lemma_hyphenated_has_no_comma(v: u128)
    ensures
        !hyphenated(v).contains(','),
        hyphenated(v).len() == 36,
{
    assert forall|i: int| 0 <= i < 36 implies hyphenated(v)[i] != ',' by {
        if !is_hyphen_pos(i) {
            lemma_nibble_bound(v, digit_at(i));
        }
    }
}

/// Relies on uuid's `Display` for `Uuid` (lowercase hyphenated form, see
/// `format_hyphenated`): the canonical text of `v`.
#[verifier::external_body]
pub fn id_text(v: u128) -> (r: String)
    ensures
        r@ == hyphenated(v),
{
    uuid::Uuid::from_u128(v).to_string()
}

/// Relies on `uuid::Uuid::parse_str`, which reads the hyphenated form it
/// prints (and other forms) as the value whose `as_u128` is returned.
#[verifier::external_body]
pub fn parse_id(s: &str) -> (r: Option<u128>)
    ensures
        r == id_of_text(s@),
        !(exists|u: u128| hyphenated(u) == s@) ==> r == parsed_uuid(s@),
{
    match uuid::Uuid::parse_str(s) {
        Ok(u) => Some(u.as_u128()),
        Err(_) => None,
    }
}

/// Relies on `uuid::Uuid::new_v4`: a random identifier, of which nothing is
/// promised.
#[verifier::external_body]
pub fn fresh_id() -> (r: u128) {
    uuid::Uuid::new_v4().as_u128()
}

} // verus!

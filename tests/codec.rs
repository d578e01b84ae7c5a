use bookmark_tags::codec::{decode, encode};
use bookmark_tags::error::TagError;
use bookmark_tags::ident::{id_text, parse_id};

const A: u128 = 0x550e8400_e29b_41d4_a716_446655440000;
const B: u128 = 0xa1a2a3a4_b1b2_c1c2_d1d2_d3d4d5d6d7d8;
const C: u128 = 0x00000000_0000_0000_0000_00000000000f;

#[test]
fn canonical_text_of_identifier() {
    assert_eq!(id_text(A), "550e8400-e29b-41d4-a716-446655440000");
    assert_eq!(id_text(C), "00000000-0000-0000-0000-00000000000f");
}

#[test]
fn parse_reads_canonical_and_other_forms() {
    assert_eq!(parse_id("a1a2a3a4-b1b2-c1c2-d1d2-d3d4d5d6d7d8"), Some(B));
    assert_eq!(parse_id("A1A2A3A4-B1B2-C1C2-D1D2-D3D4D5D6D7D8"), Some(B));
    assert_eq!(parse_id("a1a2a3a4b1b2c1c2d1d2d3d4d5d6d7d8"), Some(B));
    assert_eq!(parse_id("not-an-id"), None);
    assert_eq!(parse_id(""), None);
}

#[test]
fn encode_joins_with_commas() {
    assert_eq!(
        encode(&vec![A, B]),
        "550e8400-e29b-41d4-a716-446655440000,a1a2a3a4-b1b2-c1c2-d1d2-d3d4d5d6d7d8"
    );
    assert_eq!(encode(&vec![C]), "00000000-0000-0000-0000-00000000000f");
}

#[test]
fn round_trip_keeps_order() {
    for ids in [vec![A], vec![B, A], vec![A, B, C], vec![C, B, A]] {
        let text = encode(&ids);
        assert_eq!(decode(&text), Ok(ids));
    }
}

#[test]
fn empty_set_identity() {
    assert_eq!(decode(""), Ok(vec![]));
    assert_eq!(encode(&vec![]), "");
}

#[test]
fn decode_reads_non_canonical_pieces() {
    let text = "A1A2A3A4-B1B2-C1C2-D1D2-D3D4D5D6D7D8,550e8400e29b41d4a716446655440000";
    assert_eq!(decode(text), Ok(vec![B, A]));
}

#[test]
fn empty_segment_is_malformed() {
    let a = id_text(A);
    let b = id_text(B);
    assert_eq!(decode(&format!("{},,{}", a, b)), Err(TagError::MalformedTagSet));
    assert_eq!(decode("A,,B"), Err(TagError::MalformedTagSet));
    assert_eq!(decode(&format!("{},", a)), Err(TagError::MalformedTagSet));
    assert_eq!(decode(&format!(",{}", a)), Err(TagError::MalformedTagSet));
    assert_eq!(decode(","), Err(TagError::MalformedTagSet));
}

#[test]
fn non_identifier_is_malformed() {
    assert_eq!(decode("not-an-id"), Err(TagError::MalformedTagSet));
    let a = id_text(A);
    assert_eq!(decode(&format!("{},not-an-id", a)), Err(TagError::MalformedTagSet));
    assert_eq!(decode(&format!("{} ", a)), Err(TagError::MalformedTagSet));
}

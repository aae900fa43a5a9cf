use pastebin::id::{combine_bits, decode_id, encode_id, split_into_bits, trim, IdError};
use pastebin::object_id::{id_from_string, id_to_string, ObjectId};

#[test]
fn zero_has_one_byte() {
    assert_eq!(trim(&split_into_bits(0)), &[0u8][..]);
    assert_eq!(encode_id(0), "AA");
}

#[test]
fn small_ids_are_short() {
    assert_eq!(encode_id(1), "AQ");
    assert_eq!(encode_id(255), "_w");
    assert_eq!(encode_id(256), "AQA");
    assert_eq!(encode_id(u64::MAX), "__________8");
}

#[test]
fn split_and_combine() {
    assert_eq!(split_into_bits(0x0102030405060708), [1, 2, 3, 4, 5, 6, 7, 8]);
    assert_eq!(combine_bits(&[1, 2, 3, 4, 5, 6, 7, 8]), 0x0102030405060708);
    assert_eq!(combine_bits(&[]), 0);
    assert_eq!(combine_bits(&[0, 0, 1, 0]), 256);
}

#[test]
fn trim_drops_leading_zeros_only() {
    assert_eq!(trim(&[0, 0, 5, 0]), &[5u8, 0][..]);
    assert_eq!(trim(&[7, 0]), &[7u8, 0][..]);
    assert_eq!(trim(&[]), &[0u8][..]);
    assert_eq!(trim(&[0, 0, 0]), &[0u8][..]);
}

#[test]
fn decode_inverts_encode() {
    for n in [0u64, 1, 2, 63, 64, 255, 256, 65535, 65536, 1 << 32, u64::MAX - 1, u64::MAX] {
        assert_eq!(decode_id(&encode_id(n)), Ok(n));
    }
}

#[test]
fn decode_refuses_what_is_no_base64() {
    assert_eq!(decode_id("a b"), Err(IdError::Malformed));
    assert_eq!(decode_id("AQ=A"), Err(IdError::Malformed));
    assert_eq!(decode_id("A"), Err(IdError::Malformed));
    assert_eq!(decode_id("+/"), Err(IdError::Malformed));
}

#[test]
fn decode_refuses_more_than_eight_bytes() {
    assert_eq!(decode_id("AAAAAAAAAAAA"), Err(IdError::WrongLength(9)));
    assert_eq!(decode_id(""), Ok(0));
    assert_eq!(decode_id("AAE"), Ok(1));
}

#[test]
fn object_id_round_trip() {
    let id = ObjectId::with_bytes([1, 2, 3, 4, 5, 6, 7, 8, 9, 10, 11, 12]);
    let text = id_to_string(id);
    assert_eq!(text, "AQIDBAUGBwgJCgsM");
    assert_eq!(id_from_string(&text), Ok(id));
    assert_eq!(id_from_string(&text).unwrap().bytes(), [1, 2, 3, 4, 5, 6, 7, 8, 9, 10, 11, 12]);
}

#[test]
fn object_id_of_wrong_length() {
    assert_eq!(id_from_string("AQIDBAUGBwgJCgs"), Err(IdError::WrongLength(11)));
    assert_eq!(id_from_string("AQIDBAUGBwgJCgsMDQ"), Err(IdError::WrongLength(13)));
    assert_eq!(id_from_string(""), Err(IdError::WrongLength(0)));
    assert_eq!(id_from_string("AQIDBAUGBwgJCgs*"), Err(IdError::Malformed));
}

use parpress::codec::{b64url_decode, uuid_parse};

#[test]
fn b64url_decode_accepts_only_canonical_text() {
    assert_eq!(b64url_decode("YQ"), Some(vec![0x61]));
    assert_eq!(b64url_decode("Zm9v"), Some(b"foo".to_vec()));
    assert_eq!(b64url_decode(""), Some(Vec::new()));
    assert_eq!(b64url_decode("_-w"), Some(vec![0xff, 0xec]));
    // Non-zero trailing bits, padding, a lone symbol, outside the alphabet.
    assert_eq!(b64url_decode("YR"), None);
    assert_eq!(b64url_decode("YQ=="), None);
    assert_eq!(b64url_decode("Y"), None);
    assert_eq!(b64url_decode("@@@"), None);
    assert_eq!(b64url_decode("+/8"), None);
}

#[test]
fn uuid_parse_forms() {
    let id: u128 = 0x550e8400_e29b_41d4_a716_446655440000;
    assert_eq!(uuid_parse("550e8400-e29b-41d4-a716-446655440000"), Some(id));
    assert_eq!(uuid_parse("550E8400-E29B-41D4-A716-446655440000"), Some(id));
    assert_eq!(uuid_parse("550e8400e29b41d4a716446655440000"), Some(id));
    assert_eq!(uuid_parse("urn:uuid:550e8400-e29b-41d4-a716-446655440000"), Some(id));
    assert_eq!(uuid_parse("550e8400-e29b-41d4-a716-44665544000"), None);
    assert_eq!(uuid_parse("not a uuid"), None);
}

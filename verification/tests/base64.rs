use transom_client::wire::base64::decode;

#[test]
fn decodes_swift_data_and_rejects_invalid_padding_or_large_data() {
    for (encoded, plain) in [("", ""), ("Zg==", "f"), ("Zm8=", "fo"), ("Zm9v", "foo")] {
        assert_eq!(decode(encoded).unwrap(), plain.as_bytes());
    }
    for bad in ["a", "====", "Zh==", "Zm9=", "Zg==Zg==", "Zm8*"] {
        assert!(decode(bad).is_none());
    }
    assert!(decode(&"A".repeat(172004)).is_none());
}

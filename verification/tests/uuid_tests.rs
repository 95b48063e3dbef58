use trusty_ipc::error::TipcError;
use trusty_ipc::uuid::Uuid;

#[test]
fn uuid_parsing() {
    let uuid = Uuid::new(0, 0, 0, [0; 8]);
    let uuid_string = "00000000-0000-0000-0000-000000000000".to_string();
    assert_eq!(uuid.to_string(), uuid_string);
    let uuid_from_str = Uuid::new_from_string(&uuid_string);
    assert!(uuid_from_str.is_ok(), "couldn't parse uuid string");
    let uuid_from_str = uuid_from_str.unwrap();
    assert_eq!(uuid, uuid_from_str, "uuid should match");
    let uuid2 = Uuid::new(1262561249, 51804, 17255, [189, 181, 5, 22, 64, 5, 183, 196]);
    let uuid_string_2 = "4b4127e1-ca5c-4367-bdb5-05164005b7c4".to_string();
    let uuid2_from_str = Uuid::new_from_string(&uuid_string_2);
    assert!(uuid2_from_str.is_ok(), "couldn't parse uuid string");
    let uuid2_from_str = uuid2_from_str.unwrap();
    assert_eq!(uuid2, uuid2_from_str, "uuid should match");
    let bad_uuid_from_str = Uuid::new_from_string("4b4127e1-ca5c-4367-bdb5-05164005b7c45");
    assert!(bad_uuid_from_str.is_err(), "shouldn't be able to parse string");
    let bad_uuid_from_str = Uuid::new_from_string("4b4127e1-ca5c-4367-bdbq-05164005b7c4");
    assert!(bad_uuid_from_str.is_err(), "shouldn't be able to parse string");
    let bad_uuid_from_str = Uuid::new_from_string("4b4127e1-ca5c-4367-bdb5005164005b7c4");
    assert!(bad_uuid_from_str.is_err(), "shouldn't be able to parse string");
    let bad_uuid_from_str = Uuid::new_from_string("4b41-7e1-ca5c-4367-bdb5-05164005b7c4");
    assert!(bad_uuid_from_str.is_err(), "shouldn't be able to parse string");
    let bad_uuid_from_str = Uuid::new_from_string("4b4127e1-ca5c-4367-bd-b505164005b7c4");
    assert!(bad_uuid_from_str.is_err(), "shouldn't be able to parse string");
}

#[test]
fn uuid_text_roundtrip_lowercases() {
    let text = "4B4127E1-CA5C-4367-BDB5-05164005B7C4";
    let uuid = Uuid::new_from_string(text).unwrap();
    assert_eq!(uuid.to_string(), "4b4127e1-ca5c-4367-bdb5-05164005b7c4");
    assert_eq!(Uuid::new_from_string(&uuid.to_string()).unwrap(), uuid);
}

#[test]
fn uuid_rejects_malformed_text() {
    for bad in [
        "",
        "4b4127e1-ca5c-4367-bdb5-05164005b7c",
        "+b4127e1-ca5c-4367-bdb5-05164005b7c4",
        "4b4127e1-ca5c-4367-bdb5-05164005b7\u{e9}",
        "4b4127e1_ca5c-4367-bdb5-05164005b7c4",
        "4b4127e1-ca5c-4367-bdb5-05164005b7cg",
    ] {
        assert_eq!(Uuid::new_from_string(bad), Err(TipcError::InvalidData));
    }
}

#[test]
fn uuid_from_bytes_reads_little_endian_fields() {
    let bytes: [u8; 16] = [
        0xe1, 0x27, 0x41, 0x4b, 0x5c, 0xca, 0x67, 0x43, 0xbd, 0xb5, 0x05, 0x16, 0x40, 0x05, 0xb7,
        0xc4,
    ];
    let uuid = Uuid::from_bytes(&bytes);
    assert_eq!(uuid, Uuid::new(0x4b4127e1, 0xca5c, 0x4367, [189, 181, 5, 22, 64, 5, 183, 196]));
    assert_eq!(Uuid::try_from_bytes(&bytes[..]), Ok(uuid));
    assert_eq!(Uuid::try_from_bytes(&bytes[..15]), Err(TipcError::OutOfBounds));
    assert_eq!(Uuid::try_from_bytes(&[0u8; 17]), Err(TipcError::OutOfBounds));
}

use yyid::Yyid;

#[test]
fn test_yyid_from_uuid() {
    let uuid = uuid::Uuid::new_v4();
    let uuid_s = uuid.as_hyphenated().to_string();
    let yyid = Yyid::from_bytes(uuid.into_bytes());
    let yyid_s = yyid.hyphenated().to_string();

    assert_eq!(uuid_s, yyid_s);
}

#[test]
fn test_yyid_from_uuid_ref() {
    let uuid = uuid::Uuid::new_v4();
    let uuid_s = uuid.as_hyphenated().to_string();
    let yyid = Yyid::from_bytes(*uuid.as_bytes());
    let yyid_s = yyid.hyphenated().to_string();

    assert_eq!(uuid_s, yyid_s);
}

#[test]
fn every_form_agrees_with_uuid() {
    let uuid = uuid::Uuid::new_v4();
    let yyid = Yyid::from_bytes(uuid.into_bytes());
    assert_eq!(yyid.simple().to_string(), uuid.simple().to_string());
    assert_eq!(yyid.braced().to_string(), uuid.braced().to_string());
    assert_eq!(yyid.to_u128(), uuid.as_u128());
    assert_eq!(yyid.to_u128_le(), uuid.to_u128_le());
    let mut buffer = [0u8; 36];
    let mut theirs = [0u8; 36];
    assert_eq!(
        yyid.hyphenated().encode_upper(&mut buffer),
        uuid.hyphenated().encode_upper(&mut theirs)
    );
}

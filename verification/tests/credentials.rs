use chronos_fm::credentials::{
    credentials_from_members, credentials_json, credentials_label, keyring_attributes,
    parse_stored_credentials,
};

#[test]
fn stored_credentials_round_trip() {
    let json = credentials_json("AKIA123", "s3cr3t/+=");
    assert_eq!(json, r#"{"access_key_id":"AKIA123","secret_access_key":"s3cr3t/+="}"#);
    assert_eq!(
        parse_stored_credentials(&json).unwrap(),
        Some(("AKIA123".to_string(), "s3cr3t/+=".to_string()))
    );
}

#[test]
fn missing_or_empty_keys_read_as_nothing() {
    assert_eq!(parse_stored_credentials(r#"{"access_key_id":"a"}"#).unwrap(), None);
    assert_eq!(
        parse_stored_credentials(r#"{"access_key_id":"","secret_access_key":"b"}"#).unwrap(),
        None
    );
    assert_eq!(parse_stored_credentials("[1, 2]").unwrap(), None);
    assert!(parse_stored_credentials("not json").is_err());
    assert_eq!(credentials_from_members(Some("a".into()), None), None);
}

#[test]
fn keyring_item_identity() {
    assert_eq!(credentials_label("work"), "Chronos-FM S3 \u{2014} work");
    assert_eq!(
        keyring_attributes("work"),
        vec![
            ("service".to_string(), "chronos-fm-s3".to_string()),
            ("profile".to_string(), "work".to_string())
        ]
    );
}

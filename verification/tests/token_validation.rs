use expo_push_notification_client::Expo;

#[test]
fn expo_client_test_is_expo_push_token() {
    for (s, expected) in [
        ("ExponentPushToken[xxxxxxxxxxxxxxxxxxxxxx]", true),
        ("ExponentPushToken[xxxxxxxxxxxxxxxxxxxxxx", false),
        ("ExpoPushToken[xxxxxxxxxxxxxxxxxxxxxx]", true),
        ("ExpoPushToken[xxxxxxxxxxxxxxxxxxxxxx", false),
        ("xxxxxxxx-xxxx-xxxx-xxxx-xxxxxxxxxxxx", true),
        ("xxxxxxxx-xxxx-xxxx-xxxx-xxxxxxxxxxx", false),
    ] {
        assert_eq!(
            Expo::is_expo_push_token(s),
            expected,
            "Expo::is_expo_push_token({}) should be {}",
            s,
            expected
        );
    }
}

#[test]
fn uuid_form_details() {
    // A canonical lowercase UUID shape is accepted.
    assert!(Expo::is_expo_push_token("0123abcd-ef45-6789-abcd-0123456789ab"));
    // A wrong group length is rejected.
    assert!(!Expo::is_expo_push_token("0123abcd-ef456-789-abcd-0123456789ab"));
    // Uppercase characters are rejected: the shape is lowercase-only.
    assert!(!Expo::is_expo_push_token("0123ABCD-ef45-6789-abcd-0123456789ab"));
    // Hyphens in the wrong positions are rejected.
    assert!(!Expo::is_expo_push_token("0123abcdef45-6789--abcd-0123456789ab"));
    // The empty string is rejected.
    assert!(!Expo::is_expo_push_token(""));
    // The bare label without a closing bracket is rejected.
    assert!(!Expo::is_expo_push_token("ExponentPushToken["));
    // The label with an immediate closing bracket is accepted.
    assert!(Expo::is_expo_push_token("ExponentPushToken[]"));
}

#[test]
fn validator_agrees_with_reference_pattern() {
    // The UUID arm of the validator must agree with the reference regular
    // expression on a spread of inputs.
    let uuid = regex::Regex::new(r"^[a-z\d]{8}-[a-z\d]{4}-[a-z\d]{4}-[a-z\d]{4}-[a-z\d]{12}$")
        .expect("regex is valid");
    let samples = [
        "xxxxxxxx-xxxx-xxxx-xxxx-xxxxxxxxxxxx",
        "00000000-0000-0000-0000-000000000000",
        "abcdefgh-ijkl-mnop-qrst-uvwxyzabcdef",
        "xxxxxxxx-xxxx-xxxx-xxxx-xxxxxxxxxxx",
        "xxxxxxxxx-xxx-xxxx-xxxx-xxxxxxxxxxxx",
        "XXXXXXXX-XXXX-XXXX-XXXX-XXXXXXXXXXXX",
        "xxxxxxxx_xxxx-xxxx-xxxx-xxxxxxxxxxxx",
        "12345678-1234-1234-1234-123456789012",
        "",
        "not a token at all",
    ];
    for s in samples {
        let by_library = Expo::is_expo_push_token(s);
        let bracket = (s.starts_with("ExponentPushToken[") || s.starts_with("ExpoPushToken["))
            && s.ends_with(']');
        assert_eq!(
            by_library,
            bracket || uuid.is_match(s),
            "disagreement on {:?}",
            s
        );
    }
}

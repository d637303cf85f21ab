use expo_push_notification_client::{
    ExpoPushMessage, InterruptionLevel, JsonValue, Priority, RichContent, Sound, ValidationError,
};

fn wire_string(message: ExpoPushMessage) -> String {
    String::from_utf8(message.into_wire_bytes()).expect("wire form is UTF-8")
}

#[test]
fn test_expo_push_message_builder() {
    let data = JsonValue::Obj(vec![(
        "data".as_bytes().to_vec(),
        JsonValue::Str("data".as_bytes().to_vec()),
    )]);
    let message = ExpoPushMessage::builder(vec![
        "ExponentPushToken[xxxxxxxxxxxxxxxxxxxxxx]".to_string(),
        "ExpoPushToken[xxxxxxxxxxxxxxxxxxxxxx]".to_string(),
        "xxxxxxxx-xxxx-xxxx-xxxx-xxxxxxxxxxxx".to_string(),
    ])
    .body("body")
    .data(data)
    .expect("data payload is accepted")
    .ttl(100)
    .expiration(100)
    .priority(Priority::High)
    .subtitle("subtitle")
    .sound(Sound::Default)
    .badge(1)
    .channel_id("channel_id")
    .category_id("category_id")
    .mutable_content(true)
    .title("title")
    .content_available(true)
    .build()
    .expect("message is valid");

    let expected = r#"{"to":["ExponentPushToken[xxxxxxxxxxxxxxxxxxxxxx]","ExpoPushToken[xxxxxxxxxxxxxxxxxxxxxx]","xxxxxxxx-xxxx-xxxx-xxxx-xxxxxxxxxxxx"],"title":"title","body":"body","data":{"data":"data"},"ttl":100,"expiration":100,"priority":"high","subtitle":"subtitle","sound":"default","badge":1,"channelId":"channel_id","categoryId":"category_id","mutableContent":true,"_contentAvailable":true}"#;
    assert_eq!(wire_string(message), expected);
}

#[test]
fn test_expo_push_message_builder_with_rich_content() {
    let message =
        ExpoPushMessage::builder(vec!["ExponentPushToken[xxxxxxxxxxxxxxxxxxxxxx]".to_string()])
            .title("Test")
            .body("Test message")
            .rich_content(RichContent::new().image("https://example.com/image.png"))
            .build()
            .expect("message is valid");

    assert_eq!(
        wire_string(message),
        r#"{"to":["ExponentPushToken[xxxxxxxxxxxxxxxxxxxxxx]"],"title":"Test","body":"Test message","richContent":{"image":"https://example.com/image.png"}}"#
    );
}

#[test]
fn test_expo_push_message_builder_with_empty_rich_content() {
    let message =
        ExpoPushMessage::builder(vec!["ExponentPushToken[xxxxxxxxxxxxxxxxxxxxxx]".to_string()])
            .title("Test")
            .body("Test message")
            .rich_content(RichContent::new())
            .build()
            .expect("message is valid");

    assert_eq!(
        wire_string(message),
        r#"{"to":["ExponentPushToken[xxxxxxxxxxxxxxxxxxxxxx]"],"title":"Test","body":"Test message","richContent":{}}"#
    );
}

#[test]
fn test_expo_push_message_builder_invalid_token() {
    let message = ExpoPushMessage::builder(vec![
        "ExponentPushToken[xxxxxxxxxxxxxxxxxxxxxx]".to_string(),
        "invalid_token".to_string(),
    ])
    .build();

    assert_eq!(message, Err(ValidationError::InvalidToken));
}

#[test]
fn builder_token_validity_over_whole_list() {
    // The staged-list validity test is the conjunction over all recipients:
    // vacuously true when the list is empty, false as soon as one token is
    // malformed.
    assert!(ExpoPushMessage::builder(Vec::new()).is_valid_expo_push_token());
    assert!(ExpoPushMessage::builder(vec![
        "ExponentPushToken[xxxxxxxxxxxxxxxxxxxxxx]".to_string(),
        "xxxxxxxx-xxxx-xxxx-xxxx-xxxxxxxxxxxx".to_string(),
    ])
    .is_valid_expo_push_token());
    assert!(!ExpoPushMessage::builder(vec![
        "ExponentPushToken[xxxxxxxxxxxxxxxxxxxxxx]".to_string(),
        "invalid_token".to_string(),
    ])
    .is_valid_expo_push_token());
}

#[test]
fn builder_empty_recipients_rejected() {
    // An empty recipient list fails validation locally, before any request
    // could be constructed.
    let message = ExpoPushMessage::builder(Vec::new()).title("Test").build();
    assert_eq!(message, Err(ValidationError::InvalidToken));
}

#[test]
fn test_expo_push_message_builder_with_interruption_level() {
    let message =
        ExpoPushMessage::builder(vec!["ExponentPushToken[xxxxxxxxxxxxxxxxxxxxxx]".to_string()])
            .title("Test")
            .body("Test message")
            .interruption_level(InterruptionLevel::TimeSensitive)
            .build()
            .expect("message is valid");

    assert_eq!(
        wire_string(message),
        r#"{"to":["ExponentPushToken[xxxxxxxxxxxxxxxxxxxxxx]"],"title":"Test","body":"Test message","interruptionLevel":"time-sensitive"}"#
    );
}

#[test]
fn test_expo_push_message_builder_with_all_priorities() {
    for (priority, expected_str) in [
        (Priority::Default, "default"),
        (Priority::Normal, "normal"),
        (Priority::High, "high"),
    ] {
        let message = ExpoPushMessage::builder(vec![
            "ExponentPushToken[xxxxxxxxxxxxxxxxxxxxxx]".to_string(),
        ])
        .priority(priority)
        .build()
        .expect("message is valid");

        let serialized: serde_json::Value =
            serde_json::from_slice(&message.into_wire_bytes()).expect("wire form is valid JSON");
        assert_eq!(serialized["priority"], expected_str);
    }
}

#[test]
fn test_expo_push_message_builder_with_all_interruption_levels() {
    for (level, expected_str) in [
        (InterruptionLevel::Active, "active"),
        (InterruptionLevel::Critical, "critical"),
        (InterruptionLevel::Passive, "passive"),
        (InterruptionLevel::TimeSensitive, "time-sensitive"),
    ] {
        let message = ExpoPushMessage::builder(vec![
            "ExponentPushToken[xxxxxxxxxxxxxxxxxxxxxx]".to_string(),
        ])
        .interruption_level(level)
        .build()
        .expect("message is valid");

        let serialized: serde_json::Value =
            serde_json::from_slice(&message.into_wire_bytes()).expect("wire form is valid JSON");
        assert_eq!(serialized["interruptionLevel"], expected_str);
    }
}

#[test]
fn test_expo_push_message_builder_with_sound() {
    let message =
        ExpoPushMessage::builder(vec!["ExponentPushToken[xxxxxxxxxxxxxxxxxxxxxx]".to_string()])
            .title("Test")
            .sound(Sound::Default)
            .build()
            .expect("message is valid");

    let serialized: serde_json::Value =
        serde_json::from_slice(&message.into_wire_bytes()).expect("wire form is valid JSON");
    assert_eq!(serialized["sound"], "default");
}

#[test]
fn test_expo_push_message_builder_with_custom_sound() {
    let message =
        ExpoPushMessage::builder(vec!["ExponentPushToken[xxxxxxxxxxxxxxxxxxxxxx]".to_string()])
            .title("Test")
            .sound(Sound::Custom("bells.wav".to_string()))
            .build()
            .expect("message is valid");

    let serialized: serde_json::Value =
        serde_json::from_slice(&message.into_wire_bytes()).expect("wire form is valid JSON");
    assert_eq!(serialized["sound"], "bells.wav");
}

#[test]
fn wire_form_escapes_strings() {
    let message =
        ExpoPushMessage::builder(vec!["ExponentPushToken[xxxxxxxxxxxxxxxxxxxxxx]".to_string()])
            .title("say \"hi\"\n")
            .body("back\\slash")
            .build()
            .expect("message is valid");

    assert_eq!(
        wire_string(message),
        r#"{"to":["ExponentPushToken[xxxxxxxxxxxxxxxxxxxxxx]"],"title":"say \"hi\"\u000a","body":"back\\slash"}"#
    );
}

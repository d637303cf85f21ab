use expo_push_notification_client::{
    ExpoPushMessage, ExpoPushReceiptId, GetPushNotificationReceiptsRequest, InterruptionLevel,
    SendPushNotificationsRequest, Sound,
};
use expo_push_notification_client::json::to_json_bytes;

#[test]
fn sound_test_serialization() {
    assert_eq!(to_json_bytes(&Sound::Default.to_json()), b"\"default\"");
    assert_eq!(
        to_json_bytes(&Sound::Custom("bells.wav".to_string()).to_json()),
        b"\"bells.wav\""
    );
    assert_eq!(
        to_json_bytes(&Sound::Custom("custom_sound.mp3".to_string()).to_json()),
        b"\"custom_sound.mp3\""
    );
}

#[test]
fn interruption_level_test_serialization() {
    assert_eq!(to_json_bytes(&InterruptionLevel::Active.to_json()), b"\"active\"");
    assert_eq!(to_json_bytes(&InterruptionLevel::Critical.to_json()), b"\"critical\"");
    assert_eq!(to_json_bytes(&InterruptionLevel::Passive.to_json()), b"\"passive\"");
    assert_eq!(
        to_json_bytes(&InterruptionLevel::TimeSensitive.to_json()),
        b"\"time-sensitive\""
    );
}

fn message(token: &str) -> ExpoPushMessage {
    ExpoPushMessage::builder(vec![token.to_string()])
        .build()
        .expect("message is valid")
}

#[test]
fn single_message_request_serializes_as_object() {
    let request = SendPushNotificationsRequest::new(vec![message(
        "ExponentPushToken[xxxxxxxxxxxxxxxxxxxxxx]",
    )])
    .expect("batch is non-empty");
    assert_eq!(
        request.into_body_bytes(),
        br#"{"to":["ExponentPushToken[xxxxxxxxxxxxxxxxxxxxxx]"]}"#
    );
}

#[test]
fn multi_message_request_serializes_as_array() {
    let request = SendPushNotificationsRequest::new(vec![
        message("ExponentPushToken[xxxxxxxxxxxxxxxxxxxxxx]"),
        message("ExponentPushToken[yyyyyyyyyyyyyyyyyyyyyy]"),
    ])
    .expect("batch is non-empty");
    assert_eq!(
        request.into_body_bytes(),
        br#"[{"to":["ExponentPushToken[xxxxxxxxxxxxxxxxxxxxxx]"]},{"to":["ExponentPushToken[yyyyyyyyyyyyyyyyyyyyyy]"]}]"#
    );
}

#[test]
fn empty_batch_rejected() {
    let request = SendPushNotificationsRequest::new(Vec::new());
    let err = request.expect_err("empty batch must be rejected");
    assert_eq!(err.message(), "Invalid argument: messages must not be empty");
}

#[test]
fn receipts_request_serializes_ids() {
    let request = GetPushNotificationReceiptsRequest::new(vec![
        ExpoPushReceiptId::new("XXXXXXXX-XXXX-XXXX-XXXX-XXXXXXXXXXXX".to_string()),
        ExpoPushReceiptId::new("YYYYYYYY-YYYY-YYYY-YYYY-YYYYYYYYYYYY".to_string()),
    ]);
    assert_eq!(
        request.to_body_bytes(),
        br#"{"ids":["XXXXXXXX-XXXX-XXXX-XXXX-XXXXXXXXXXXX","YYYYYYYY-YYYY-YYYY-YYYY-YYYYYYYYYYYY"]}"#
    );
}

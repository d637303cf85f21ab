use expo_push_notification_client::simple::{
    classify_push_result_item, validate_push_ids, validate_push_payload, PushPayload, PushTicket,
};
use expo_push_notification_client::{ExpoPushReceiptId, PushIds};

fn payload(tokens: &[&str], title: &str, body: &str) -> PushPayload {
    PushPayload {
        to: tokens.iter().map(|s| s.to_string()).collect(),
        title: title.to_string(),
        body: body.to_string(),
    }
}

#[test]
fn send_push_notification_test_invalid_expo_push_token() {
    let result = validate_push_payload(&payload(&["invalid_token"], "Hello", "World"));
    assert_eq!(
        result.unwrap_err().message(),
        "Invalid argument: Invalid expo push token: invalid_token"
    );
}

#[test]
fn send_push_notification_test_empty_title() {
    let result = validate_push_payload(&payload(
        &["ExponentPushToken[xxxxxxxxxxxxxxxxxxxxxx]"],
        "",
        "World",
    ));
    assert_eq!(result.unwrap_err().message(), "Invalid argument: Title is empty");
}

#[test]
fn send_push_notification_test_empty_body() {
    let result = validate_push_payload(&payload(
        &["ExponentPushToken[xxxxxxxxxxxxxxxxxxxxxx]"],
        "Hello",
        "",
    ));
    assert_eq!(result.unwrap_err().message(), "Invalid argument: Body is empty");
}

#[test]
fn valid_payload_passes_and_serializes() {
    let p = payload(&["ExponentPushToken[xxxxxxxxxxxxxxxxxxxxxx]"], "Hello", "World");
    assert!(validate_push_payload(&p).is_ok());
    assert_eq!(
        p.to_body_bytes(),
        br#"{"to":["ExponentPushToken[xxxxxxxxxxxxxxxxxxxxxx]"],"title":"Hello","body":"World"}"#
    );
}

#[test]
fn get_push_receipts_test_get_receipts_empty_id() {
    let push_ids = PushIds::new(vec!["".to_string(), "id".to_string()]);
    let result = validate_push_ids(&push_ids);
    assert_eq!(result.unwrap_err().message(), "Invalid argument: id is empty");
}

#[test]
fn non_empty_ids_pass_validation() {
    let push_ids = PushIds::new(vec!["id-one".to_string(), "id-two".to_string()]);
    assert!(validate_push_ids(&push_ids).is_ok());
}

#[test]
fn test_string_conversion() {
    let s = "XXXXXXXX-XXXX-XXXX-XXXX-XXXXXXXXXXXX";
    assert_eq!(
        ExpoPushReceiptId::try_from(s.to_string())
            .expect("every string is a valid id")
            .into_string(),
        s
    );
    assert_eq!(
        ExpoPushReceiptId::from_str(s).expect("every string is a valid id").as_str(),
        s
    );
}

#[test]
fn classify_ok_and_error_and_unknown() {
    let ok = classify_push_result_item("ok".to_string(), Some("A".to_string()), None, None);
    match ok {
        Some(PushTicket::Success(t)) => {
            assert_eq!(t.status, "ok");
            assert_eq!(t.id, "A");
        },
        other => panic!("expected a success ticket, got {:?}", other),
    }

    let err = classify_push_result_item(
        "error".to_string(),
        None,
        Some("boom".to_string()),
        None,
    );
    match err {
        Some(PushTicket::Error(t)) => {
            assert_eq!(t.status, "error");
            assert_eq!(t.message, "boom");
            assert_eq!(t.details, None);
        },
        other => panic!("expected an error ticket, got {:?}", other),
    }

    assert_eq!(
        classify_push_result_item("pending".to_string(), None, None, None),
        None
    );
}

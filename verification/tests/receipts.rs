use expo_push_notification_client::{
    handle_receipts_response, Details, DetailsErrorType, ExpoPushErrorReceipt, ExpoPushReceipt,
};

#[test]
fn response_test() {
    let response_body = r#"
{
  "data": {
    "XXXXXXXX-XXXX-XXXX-XXXX-XXXXXXXXXXXX": { "status": "ok" },
    "ZZZZZZZZ-ZZZZ-ZZZZ-ZZZZ-ZZZZZZZZZZZZ": { "status": "ok" }
  }
}
"#;
    let receipts = handle_receipts_response(200, response_body.as_bytes()).expect("decodes");
    assert_eq!(receipts.len(), 2);
    assert_eq!(
        receipts.get("XXXXXXXX-XXXX-XXXX-XXXX-XXXXXXXXXXXX"),
        Some(&ExpoPushReceipt::Success)
    );
    assert_eq!(
        receipts.get("ZZZZZZZZ-ZZZZ-ZZZZ-ZZZZ-ZZZZZZZZZZZZ"),
        Some(&ExpoPushReceipt::Success)
    );
}

#[test]
fn test_contains_error() {
    let response_body = r#"
{
  "data": {
    "XXXXXXXX-XXXX-XXXX-XXXX-XXXXXXXXXXXX": { "status": "ok" },
    "ZZZZZZZZ-ZZZZ-ZZZZ-ZZZZ-ZZZZZZZZZZZZ": {
      "status": "error",
      "message": "...",
      "details": {
        "error": "DeviceNotRegistered"
      }
    },
    "AAAAAAAA-AAAA-AAAA-AAAA-AAAAAAAAAAAA": {
      "status": "error",
      "message": "...",
      "details": {
        "error": "MessageTooBig"
      }
    },
    "BBBBBBBB-BBBB-BBBB-BBBB-BBBBBBBBBBBB": {
      "status": "error",
      "message": "...",
      "details": {
        "error": "MessageRateExceeded"
      }
    },
    "CCCCCCCC-CCCC-CCCC-CCCC-CCCCCCCCCCCC": {
      "status": "error",
      "message": "...",
      "details": {
        "error": "MismatchSenderId"
      }
    },
    "DDDDDDDD-DDDD-DDDD-DDDD-DDDDDDDDDDDD": {
      "status": "error",
      "message": "...",
      "details": {
        "error": "InvalidCredentials"
      }
    }
  }
}
"#;
    let receipts = handle_receipts_response(200, response_body.as_bytes()).expect("decodes");
    assert_eq!(receipts.len(), 6);
    assert_eq!(
        receipts.get("XXXXXXXX-XXXX-XXXX-XXXX-XXXXXXXXXXXX"),
        Some(&ExpoPushReceipt::Success)
    );
    for (key, kind) in [
        ("ZZZZZZZZ-ZZZZ-ZZZZ-ZZZZ-ZZZZZZZZZZZZ", DetailsErrorType::DeviceNotRegistered),
        ("AAAAAAAA-AAAA-AAAA-AAAA-AAAAAAAAAAAA", DetailsErrorType::MessageTooBig),
        ("BBBBBBBB-BBBB-BBBB-BBBB-BBBBBBBBBBBB", DetailsErrorType::MessageRateExceeded),
        ("CCCCCCCC-CCCC-CCCC-CCCC-CCCCCCCCCCCC", DetailsErrorType::MismatchSenderId),
        ("DDDDDDDD-DDDD-DDDD-DDDD-DDDDDDDDDDDD", DetailsErrorType::InvalidCredentials),
    ] {
        assert_eq!(
            receipts.get(key),
            Some(&ExpoPushReceipt::Error(ExpoPushErrorReceipt {
                message: "...".to_string(),
                details: Some(Details { error: Some(kind) }),
            })),
            "receipt for {}",
            key
        );
    }
}

#[test]
fn test_get_push_notification_receipts() {
    // Querying three ids where the response only reports two: the absent id
    // is simply not in the map.
    let response_body = r#"
{
    "data": {
        "XXXXXXXX-XXXX-XXXX-XXXX-XXXXXXXXXXXX": { "status": "ok" },
        "ZZZZZZZZ-ZZZZ-ZZZZ-ZZZZ-ZZZZZZZZZZZZ": { "status": "ok" }
    }
}
"#;
    let receipts = handle_receipts_response(200, response_body.as_bytes()).expect("decodes");
    assert_eq!(receipts.len(), 2);
    assert!(receipts.contains_key("XXXXXXXX-XXXX-XXXX-XXXX-XXXXXXXXXXXX"));
    assert!(!receipts.contains_key("YYYYYYYY-YYYY-YYYY-YYYY-YYYYYYYYYYYY"));
    assert!(receipts.contains_key("ZZZZZZZZ-ZZZZ-ZZZZ-ZZZZ-ZZZZZZZZZZZZ"));
}

#[test]
fn absent_receipt_is_not_an_error() {
    // Querying for ids A and B where the response only holds A: the map
    // holds only A, and looking up B yields "not present".
    let response_body = r#"{"data":{"A":{"status":"ok"}}}"#;
    let receipts = handle_receipts_response(200, response_body.as_bytes()).expect("decodes");
    assert_eq!(receipts.len(), 1);
    assert_eq!(receipts.get("A"), Some(&ExpoPushReceipt::Success));
    assert_eq!(receipts.get("B"), None);
}

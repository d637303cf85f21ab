use expo_push_notification_client::{
    handle_send_response, CustomError, Details, DetailsErrorType, ExpoPushErrorReceipt,
    ExpoPushReceiptId, ExpoPushSuccessTicket, ExpoPushTicket,
};

#[test]
fn test_successful_response_body() {
    let response_body = r#"
{
  "data": [
    { "status": "ok", "id": "XXXXXXXX-XXXX-XXXX-XXXX-XXXXXXXXXXXX" },
    { "status": "ok", "id": "YYYYYYYY-YYYY-YYYY-YYYY-YYYYYYYYYYYY" },
    { "status": "ok", "id": "ZZZZZZZZ-ZZZZ-ZZZZ-ZZZZ-ZZZZZZZZZZZZ" },
    { "status": "ok", "id": "AAAAAAAA-AAAA-AAAA-AAAA-AAAAAAAAAAAA" }
  ]
}
"#;
    let parsed = handle_send_response(200, response_body.as_bytes()).expect("response decodes");
    assert_eq!(
        parsed,
        vec![
            ExpoPushTicket::Success(ExpoPushSuccessTicket {
                id: ExpoPushReceiptId::new("XXXXXXXX-XXXX-XXXX-XXXX-XXXXXXXXXXXX".to_string()),
            }),
            ExpoPushTicket::Success(ExpoPushSuccessTicket {
                id: ExpoPushReceiptId::new("YYYYYYYY-YYYY-YYYY-YYYY-YYYYYYYYYYYY".to_string()),
            }),
            ExpoPushTicket::Success(ExpoPushSuccessTicket {
                id: ExpoPushReceiptId::new("ZZZZZZZZ-ZZZZ-ZZZZ-ZZZZ-ZZZZZZZZZZZZ".to_string()),
            }),
            ExpoPushTicket::Success(ExpoPushSuccessTicket {
                id: ExpoPushReceiptId::new("AAAAAAAA-AAAA-AAAA-AAAA-AAAAAAAAAAAA".to_string()),
            }),
        ]
    );
}

#[test]
fn test_with_device_not_registerd() {
    let response_body = r#"
{
  "data": [
    {
      "status": "error",
      "message": "\"ExponentPushToken[xxxxxxxxxxxxxxxxxxxxxx]\" is not a registered push notification recipient",
      "details": {
        "error": "DeviceNotRegistered"
      }
    },
    {
      "status": "ok",
      "id": "XXXXXXXX-XXXX-XXXX-XXXX-XXXXXXXXXXXX"
    }
  ]
}
"#;
    let parsed = handle_send_response(200, response_body.as_bytes()).expect("response decodes");
    assert_eq!(
        parsed,
        vec![
            ExpoPushTicket::Error(ExpoPushErrorReceipt {
                message: "\"ExponentPushToken[xxxxxxxxxxxxxxxxxxxxxx]\" is not a registered push notification recipient".to_string(),
                details: Some(Details {
                    error: Some(DetailsErrorType::DeviceNotRegistered),
                }),
            }),
            ExpoPushTicket::Success(ExpoPushSuccessTicket {
                id: ExpoPushReceiptId::new("XXXXXXXX-XXXX-XXXX-XXXX-XXXXXXXXXXXX".to_string()),
            }),
        ]
    );
}

#[test]
fn error_item_then_ok_item_keeps_order() {
    // One "error" item followed by one "ok" item decodes into a two-element
    // ticket list in that exact order; the error entry raises nothing.
    let response_body =
        r#"{"data":[{"status":"error","message":"boom"},{"status":"ok","id":"A"}]}"#;
    let parsed = handle_send_response(200, response_body.as_bytes()).expect("response decodes");
    assert_eq!(parsed.len(), 2);
    assert_eq!(
        parsed[0],
        ExpoPushTicket::Error(ExpoPushErrorReceipt { message: "boom".to_string(), details: None })
    );
    assert_eq!(
        parsed[1],
        ExpoPushTicket::Success(ExpoPushSuccessTicket {
            id: ExpoPushReceiptId::new("A".to_string()),
        })
    );
}

#[test]
fn unknown_status_is_a_protocol_violation() {
    let response_body = r#"{"data":[{"status":"pending","id":"A"}]}"#;
    let err = handle_send_response(200, response_body.as_bytes())
        .expect_err("an unrecognized status must fail");
    assert!(matches!(err, CustomError::DeserializeErr(_)));
}

#[test]
fn malformed_body_is_undecodable() {
    let err = handle_send_response(200, b"{\"data\": [")
        .expect_err("truncated JSON must fail");
    assert!(matches!(err, CustomError::DeserializeErr(_)));
}

#[test]
fn non_success_status_is_a_server_error() {
    let err = handle_send_response(401, br#"{"error":"invalid_token"}"#)
        .expect_err("a non-success status must fail");
    assert_eq!(err.message(), "Server error: Request failed: 401");
}

#[test]
fn escaped_message_decodes() {
    // Escapes in a message, including a BMP \u escape, decode to the
    // characters they stand for.
    let response_body =
        r#"{"data":[{"status":"error","message":"line\nbreak \u00e9 \"q\""}]}"#;
    let parsed = handle_send_response(200, response_body.as_bytes()).expect("response decodes");
    assert_eq!(
        parsed[0],
        ExpoPushTicket::Error(ExpoPushErrorReceipt {
            message: "line\nbreak \u{e9} \"q\"".to_string(),
            details: None,
        })
    );
}

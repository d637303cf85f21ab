use std::io::Read;

use expo_push_notification_client::{
    encode_payload, Expo, ExpoPushMessage, SendPushNotificationsRequest,
};

#[test]
fn body_of_exactly_1024_bytes_is_not_compressed() {
    let body = vec![0x41u8; 1024];
    let encoded = encode_payload(body.clone()).expect("encoding succeeds");
    assert!(!encoded.gzipped);
    assert_eq!(encoded.bytes, body);
}

#[test]
fn body_of_1025_bytes_is_compressed() {
    let body = vec![0x41u8; 1025];
    let encoded = encode_payload(body.clone()).expect("encoding succeeds");
    assert!(encoded.gzipped);
    assert_ne!(encoded.bytes, body);
    // The compressed bytes form a real gzip stream that decompresses back to
    // the original body.
    let mut decoder = flate2::read::GzDecoder::new(encoded.bytes.as_slice());
    let mut decompressed = Vec::new();
    decoder
        .read_to_end(&mut decompressed)
        .expect("gzip stream decompresses");
    assert_eq!(decompressed, body);
}

#[test]
fn prepared_request_marks_compression_in_headers() {
    let expo = Expo::new_with_base_url(Some("access-token".to_string()), "http://localhost", None);

    // A small request stays uncompressed and unmarked.
    let small = SendPushNotificationsRequest::new(vec![
        ExpoPushMessage::builder(vec!["ExponentPushToken[xxxxxxxxxxxxxxxxxxxxxx]".to_string()])
            .build()
            .expect("message is valid"),
    ])
    .expect("batch is non-empty");
    let prepared = expo.prepare_send_request(small).expect("prepare succeeds");
    assert_eq!(prepared.method, "POST");
    assert_eq!(prepared.url, "http://localhost/--/api/v2/push/send");
    assert!(prepared
        .headers
        .iter()
        .any(|(k, v)| k == "Content-Type" && v == "application/json"));
    assert!(prepared.headers.iter().any(|(k, v)| k == "Accept-Encoding" && v == "gzip"));
    assert!(prepared
        .headers
        .iter()
        .any(|(k, v)| k == "Authorization" && v == "Bearer access-token"));
    assert!(!prepared.headers.iter().any(|(k, _)| k == "Content-Encoding"));

    // A large request is compressed and marked.
    let large = SendPushNotificationsRequest::new(vec![
        ExpoPushMessage::builder(vec!["ExponentPushToken[xxxxxxxxxxxxxxxxxxxxxx]".to_string()])
            .body(&"x".repeat(2000))
            .build()
            .expect("message is valid"),
    ])
    .expect("batch is non-empty");
    let prepared = expo.prepare_send_request(large).expect("prepare succeeds");
    assert!(prepared.headers.iter().any(|(k, v)| k == "Content-Encoding" && v == "gzip"));
}

#[test]
fn send_path_carries_backend_selector() {
    let expo = Expo::new_with_base_url(None, "http://localhost", Some(true));
    let request = SendPushNotificationsRequest::new(vec![
        ExpoPushMessage::builder(vec!["ExponentPushToken[xxxxxxxxxxxxxxxxxxxxxx]".to_string()])
            .build()
            .expect("message is valid"),
    ])
    .expect("batch is non-empty");
    let prepared = expo.prepare_send_request(request).expect("prepare succeeds");
    assert_eq!(prepared.url, "http://localhost/--/api/v2/push/send?useFcmV1=true");
}

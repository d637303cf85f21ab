use expo_push_notification_client::json::{to_json_bytes, JsonValue};
use expo_push_notification_client::jparse::parse_json;

#[test]
fn parser_handles_scalars() {
    assert_eq!(parse_json(b"null"), Some(JsonValue::Null));
    assert_eq!(parse_json(b"true"), Some(JsonValue::Bool(true)));
    assert_eq!(parse_json(b"false"), Some(JsonValue::Bool(false)));
    assert_eq!(parse_json(b" 42 "), Some(JsonValue::Num(b"42".to_vec())));
    assert_eq!(parse_json(b"\"hi\""), Some(JsonValue::Str(b"hi".to_vec())));
}

#[test]
fn parser_handles_structures() {
    assert_eq!(
        parse_json(br#"[1, "a", null]"#),
        Some(JsonValue::Arr(vec![
            JsonValue::Num(b"1".to_vec()),
            JsonValue::Str(b"a".to_vec()),
            JsonValue::Null,
        ]))
    );
    assert_eq!(
        parse_json(br#"{ "k": [true], "m": {} }"#),
        Some(JsonValue::Obj(vec![
            (b"k".to_vec(), JsonValue::Arr(vec![JsonValue::Bool(true)])),
            (b"m".to_vec(), JsonValue::Obj(Vec::new())),
        ]))
    );
}

#[test]
fn parser_rejects_malformed_documents() {
    for bad in [
        &b"{"[..],
        b"[1,]",
        b"{\"a\":}",
        b"\"unterminated",
        b"nul",
        b"[] []",
        b"",
        b"{\"a\" 1}",
        b"\"bad \\q escape\"",
        b"\"lone surrogate \\ud800\"",
    ] {
        assert_eq!(parse_json(bad), None, "{:?} should be rejected", bad);
    }
}

#[test]
fn parser_decodes_escapes_and_surrogate_pairs() {
    assert_eq!(
        parse_json(br#""a\"b\\c\/d\b\f\n\r\t""#),
        Some(JsonValue::Str("a\"b\\c/d\u{8}\u{c}\n\r\t".as_bytes().to_vec()))
    );
    assert_eq!(
        parse_json(br#""\u0041\u00e9\u4e2d\ud83d\ude00""#),
        Some(JsonValue::Str("A\u{e9}\u{4e2d}\u{1f600}".as_bytes().to_vec()))
    );
}

#[test]
fn writer_and_parser_agree_with_reference_codec() {
    // For a spread of documents: the library's writer re-serializes what the
    // library's parser read, and the reference codec reads both the original
    // document and the re-serialization as the same value.
    let documents: [&[u8]; 6] = [
        br#"{"data":[{"status":"ok","id":"X"},{"status":"error","message":"m","details":{"error":"DeviceNotRegistered"}}]}"#,
        br#"[0, -1, 2.5, 1e10, "\u00e9"]"#,
        br#"{"nested":{"deep":[[[]]],"flag":false}}"#,
        br#"  {  "spaced" :  [ 1 , 2 ]  }  "#,
        br#""just a string""#,
        br#"{"unicode":"caf\u00e9 \ud83d\ude00 raw"}"#,
    ];
    for doc in documents {
        let parsed = parse_json(doc).expect("document parses");
        let rewritten = to_json_bytes(&parsed);
        let reference_original: serde_json::Value =
            serde_json::from_slice(doc).expect("reference codec parses the original");
        let reference_rewritten: serde_json::Value =
            serde_json::from_slice(&rewritten).expect("reference codec parses the rewrite");
        assert_eq!(reference_original, reference_rewritten);
    }
}

#[test]
fn parser_agrees_with_reference_codec_on_rejection() {
    let documents: [&[u8]; 5] = [
        br#"{"a":1}"#,
        br#"{"a":1,}"#,
        br#"[1 2]"#,
        br#"tru"#,
        br#"{"a"}"#,
    ];
    for doc in documents {
        let mine = parse_json(doc).is_some();
        let reference = serde_json::from_slice::<serde_json::Value>(doc).is_ok();
        assert_eq!(mine, reference, "disagreement on {:?}", doc);
    }
}

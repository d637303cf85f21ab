use expo_push_notification_client::json::fmt_u64;
use expo_push_notification_client::message::{is_valid_priority, is_valid_sound};

#[test]
fn free_form_priority_strings() {
    assert!(is_valid_priority("default"));
    assert!(is_valid_priority("normal"));
    assert!(is_valid_priority("high"));
    assert!(!is_valid_priority("urgent"));
    assert!(!is_valid_priority(""));
    assert!(!is_valid_priority("High"));
}

#[test]
fn free_form_sound_strings() {
    assert!(is_valid_sound("default"));
    assert!(!is_valid_sound("bells.wav"));
    assert!(!is_valid_sound(""));
}

#[test]
fn decimal_formatting() {
    assert_eq!(fmt_u64(0), b"0");
    assert_eq!(fmt_u64(7), b"7");
    assert_eq!(fmt_u64(100), b"100");
    assert_eq!(fmt_u64(u64::MAX), b"18446744073709551615");
}

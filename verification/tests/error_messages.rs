use expo_push_notification_client::{CustomError, ValidationError};

#[test]
fn test_impl_display() {
    assert_eq!(
        CustomError::InvalidArgument("x".to_string()).message(),
        "Invalid argument: x"
    );
    assert_eq!(
        CustomError::DeserializeErr("x".to_string()).message(),
        "Deserialize error: x"
    );
    assert_eq!(
        CustomError::ServerErr("x".to_string()).message(),
        "Server error: x"
    );

    assert_eq!(ValidationError::InvalidToken.message(), "Invalid token");
    assert_eq!(ValidationError::InvalidPriority.message(), "Invalid priority");
    assert_eq!(ValidationError::InvalidSound.message(), "Invalid sound");
}

#[test]
fn serialize_and_gzip_error_messages() {
    assert_eq!(
        CustomError::SerializeErr("x".to_string()).message(),
        "Serialize error: x"
    );
    assert_eq!(CustomError::GzipErr("x".to_string()).message(), "Gzip error: x");
}

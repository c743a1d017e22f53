use gity::message_size::{validate_message_size, MessageSizeError, MAX_MESSAGE_SIZE};

#[test]
fn oversized_message_rejected() {
    let data = vec![0u8; 2_000_000]; // > 1MB
    assert!(matches!(
        validate_message_size(&data),
        Err(MessageSizeError::TooLarge {
            actual: 2_000_000,
            max: 1_048_576
        })
    ));
}

#[test]
fn maximum_size_message_allowed() {
    let data = vec![0u8; 1_048_576]; // Exactly 1MB
    assert!(validate_message_size(&data).is_ok());
}

#[test]
fn one_byte_over_the_limit_rejected() {
    let data = vec![0u8; MAX_MESSAGE_SIZE as usize + 1];
    let err = validate_message_size(&data).unwrap_err();
    assert_eq!(
        err.message(),
        "message too large: 1048577 bytes exceeds maximum of 1048576 bytes"
    );
}

#[test]
fn empty_message_allowed() {
    assert!(validate_message_size(&[]).is_ok());
}

use ngx_mixer::status::{from_int, Status, StatusCodeEnum};

#[test]
fn status_test_test_code_ok() {
    let status = Status::new();
    assert_eq!(status.get_error_code(), StatusCodeEnum::OK);
}

#[test]
fn status_test_test_code_ok_invalid_arg() {
    let status = Status::with_code(StatusCodeEnum::INVALID_ARGUMENT);
    assert_eq!(status.get_error_code(), StatusCodeEnum::INVALID_ARGUMENT);
}

#[test]
fn status_from_int_code_ok() {
    assert_eq!(from_int(0), StatusCodeEnum::OK);
}

#[test]
fn status_from_int_invalid_arg() {
    assert_eq!(from_int(3), StatusCodeEnum::INVALID_ARGUMENT);
}

#[test]
fn status_from_int_every_code() {
    let codes = [
        StatusCodeEnum::OK,
        StatusCodeEnum::CANCELLED,
        StatusCodeEnum::UNKNOWN,
        StatusCodeEnum::INVALID_ARGUMENT,
        StatusCodeEnum::DEADLINE_EXCEEDED,
        StatusCodeEnum::NOT_FOUND,
        StatusCodeEnum::ALREADY_EXISTS,
        StatusCodeEnum::PERMISSION_DENIED,
        StatusCodeEnum::UNAUTHENTICATED,
        StatusCodeEnum::RESOURCE_EXHAUSTED,
        StatusCodeEnum::FAILED_PRECONDITION,
        StatusCodeEnum::ABORTED,
        StatusCodeEnum::OUT_OF_RANGE,
        StatusCodeEnum::UNIMPLEMENTED,
        StatusCodeEnum::INTERNAL,
        StatusCodeEnum::UNAVAILABLE,
        StatusCodeEnum::DATA_LOSS,
    ];
    for c in codes.iter() {
        assert_eq!(from_int(c.code()), *c);
    }
    assert_eq!(StatusCodeEnum::UNAUTHENTICATED.code(), 16);
    assert_eq!(StatusCodeEnum::DATA_LOSS.code(), 15);
    assert_eq!(from_int(16), StatusCodeEnum::UNAUTHENTICATED);
    // only the low byte counts
    assert_eq!(from_int(256 + 5), StatusCodeEnum::NOT_FOUND);
}

#[test]
fn status_with_message_and_ok() {
    let s = Status::with(StatusCodeEnum::ABORTED, String::from("stop"));
    assert_eq!(s.get_error_code(), StatusCodeEnum::ABORTED);
    assert_eq!(s.error_message, Some(String::from("stop")));
    assert!(!s.ok());
    assert!(Status::new().ok());
    assert!(Status::with_code(StatusCodeEnum::NOT_FOUND).error_message.is_none());
    let d = s.clone();
    assert_eq!(d.error_message, Some(String::from("stop")));
}

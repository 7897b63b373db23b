//! Status codes shared by the check cache and the transport: the canonical
//! RPC status codes.

use vstd::prelude::*;

verus! {

/// The canonical status codes. The numeric code of each variant is given by
/// [`StatusCodeEnum::code`].
#[allow(non_camel_case_types)]
#[derive(Debug, PartialEq, Eq, Structural, Copy, Clone)]
pub enum StatusCodeEnum {
    OK,
    CANCELLED,
    UNKNOWN,
    INVALID_ARGUMENT,
    DEADLINE_EXCEEDED,
    NOT_FOUND,
    ALREADY_EXISTS,
    PERMISSION_DENIED,
    UNAUTHENTICATED,
    RESOURCE_EXHAUSTED,
    FAILED_PRECONDITION,
    ABORTED,
    OUT_OF_RANGE,
    UNIMPLEMENTED,
    INTERNAL,
    UNAVAILABLE,
    DATA_LOSS,
}

/// The numeric value of each status code.
pub open spec fn code_value(c: StatusCodeEnum) -> int {
    match c {
        StatusCodeEnum::OK => 0,
        StatusCodeEnum::CANCELLED => 1,
        StatusCodeEnum::UNKNOWN => 2,
        StatusCodeEnum::INVALID_ARGUMENT => 3,
        StatusCodeEnum::DEADLINE_EXCEEDED => 4,
        StatusCodeEnum::NOT_FOUND => 5,
        StatusCodeEnum::ALREADY_EXISTS => 6,
        StatusCodeEnum::PERMISSION_DENIED => 7,
        StatusCodeEnum::UNAUTHENTICATED => 16,
        StatusCodeEnum::RESOURCE_EXHAUSTED => 8,
        StatusCodeEnum::FAILED_PRECONDITION => 9,
        StatusCodeEnum::ABORTED => 10,
        StatusCodeEnum::OUT_OF_RANGE => 11,
        StatusCodeEnum::UNIMPLEMENTED => 12,
        StatusCodeEnum::INTERNAL => 13,
        StatusCodeEnum::UNAVAILABLE => 14,
        StatusCodeEnum::DATA_LOSS => 15,
    }
}

/// A raw code names a status exactly when its low byte is one of the
/// numbers 0 to 16.
pub open spec fn valid_raw_code(code: i32) -> bool {
    (code as u8) <= 16
}

impl StatusCodeEnum {
    /// The numeric value of this status code.
    pub fn code(&self) -> (r: i32)
        ensures
            r == code_value(*self),
    {
        match self {
            StatusCodeEnum::OK => 0,
            StatusCodeEnum::CANCELLED => 1,
            StatusCodeEnum::UNKNOWN => 2,
            StatusCodeEnum::INVALID_ARGUMENT => 3,
            StatusCodeEnum::DEADLINE_EXCEEDED => 4,
            StatusCodeEnum::NOT_FOUND => 5,
            StatusCodeEnum::ALREADY_EXISTS => 6,
            StatusCodeEnum::PERMISSION_DENIED => 7,
            StatusCodeEnum::UNAUTHENTICATED => 16,
            StatusCodeEnum::RESOURCE_EXHAUSTED => 8,
            StatusCodeEnum::FAILED_PRECONDITION => 9,
            StatusCodeEnum::ABORTED => 10,
            StatusCodeEnum::OUT_OF_RANGE => 11,
            StatusCodeEnum::UNIMPLEMENTED => 12,
            StatusCodeEnum::INTERNAL => 13,
            StatusCodeEnum::UNAVAILABLE => 14,
            StatusCodeEnum::DATA_LOSS => 15,
        }
    }
}

/// Whether the low byte of `code` names a status.
pub fn is_valid_raw_code(code: i32) -> (r: bool)
    ensures
        r == valid_raw_code(code),
{
    (code as u8) <= 16
}

/// Converts an integer status code to its enum: the status whose numeric
/// value is the low byte of `code`. Only low bytes 0 to 16 name a status.
pub fn from_int(code: i32) -> (r: StatusCodeEnum)
    requires
        valid_raw_code(code),
    ensures
        code_value(r) == (code as u8) as int,
{
    let b: u8 = code as u8;
    if b == 0 {
        StatusCodeEnum::OK
    } else if b == 1 {
        StatusCodeEnum::CANCELLED
    } else if b == 2 {
        StatusCodeEnum::UNKNOWN
    } else if b == 3 {
        StatusCodeEnum::INVALID_ARGUMENT
    } else if b == 4 {
        StatusCodeEnum::DEADLINE_EXCEEDED
    } else if b == 5 {
        StatusCodeEnum::NOT_FOUND
    } else if b == 6 {
        StatusCodeEnum::ALREADY_EXISTS
    } else if b == 7 {
        StatusCodeEnum::PERMISSION_DENIED
    } else if b == 8 {
        StatusCodeEnum::RESOURCE_EXHAUSTED
    } else if b == 9 {
        StatusCodeEnum::FAILED_PRECONDITION
    } else if b == 10 {
        StatusCodeEnum::ABORTED
    } else if b == 11 {
        StatusCodeEnum::OUT_OF_RANGE
    } else if b == 12 {
        StatusCodeEnum::UNIMPLEMENTED
    } else if b == 13 {
        StatusCodeEnum::INTERNAL
    } else if b == 14 {
        StatusCodeEnum::UNAVAILABLE
    } else if b == 15 {
        StatusCodeEnum::DATA_LOSS
    } else {
        StatusCodeEnum::UNAUTHENTICATED
    }
}

/// Distinct status codes have distinct numeric values, each between 0 and
/// 16: the value that `from_int` is given back names the one code with it.
pub proof fn lemma_code_value_injective(a: StatusCodeEnum, b: StatusCodeEnum)
    ensures
        code_value(a) == code_value(b) <==> a == b,
        0 <= code_value(a) <= 16,
{
}

/// The outcome of an operation: a status code and an optional message.
pub struct Status {
    pub error_code: StatusCodeEnum,
    pub error_message: Option<String>,
}

impl Status {
    /// The successful status, without a message.
    pub open spec fn new_spec() -> Status {
        Status { error_code: StatusCodeEnum::OK, error_message: None }
    }

    /// The status with the given code and no message.
    pub open spec fn with_code_spec(code: StatusCodeEnum) -> Status {
        Status { error_code: code, error_message: None }
    }

    /// The status is `OK`.
    pub open spec fn ok_spec(&self) -> bool {
        self.error_code == StatusCodeEnum::OK
    }

    /// The successful status, without a message.
    pub fn new() -> (s: Status)
        ensures
            s == Status::new_spec(),
    {
        Status { error_code: StatusCodeEnum::OK, error_message: None }
    }

    /// A status with the given code and no message.
    pub fn with_code(code: StatusCodeEnum) -> (s: Status)
        ensures
            s == Status::with_code_spec(code),
    {
        Status { error_code: code, error_message: None }
    }

    /// A status with the given code and message.
    pub fn with(error_code: StatusCodeEnum, error_message: String) -> (s: Status)
        ensures
            s.error_code == error_code,
            s.error_message == Some(error_message),
    {
        Status { error_code, error_message: Some(error_message) }
    }

    /// Whether the status is `OK`.
    pub fn ok(&self) -> (r: bool)
        ensures
            r == (self.error_code == StatusCodeEnum::OK),
    {
        self.error_code == StatusCodeEnum::OK
    }

    /// The status code.
    pub fn get_error_code(&self) -> (r: StatusCodeEnum)
        ensures
            r == self.error_code,
    {
        self.error_code
    }

}

impl Clone for Status {
    /// A copy of this status, equal to it field by field.
    fn clone(&self) -> (r: Status)
        ensures
            r == *self,
    {
        let message = match &self.error_message {
            Some(m) => Some(m.clone()),
            None => None,
        };
        Status { error_code: self.error_code, error_message: message }
    }
}

} // verus!

//! The failures of the pipeline: a closed set of codes, each with a number,
//! and the error value that carries a code and a message.

use crate::text::Text;
use vstd::prelude::*;

verus! {

/// Why the pipeline stopped.
#[derive(Clone, Copy, PartialEq, Eq, Debug, Structural)]
pub enum ZkErrorCode {
    ParseConfigData,
    VerifyAttestation,
    InvalidRequestLength,
    InvalidMessagesLength,
    GetJsonValueFail,
    InvalidJsonValueSize,
    CannotFoundTimestamp,
    ParseTimestampFailed,
    InvalidRequestOrder,
    InvalidRequestUrl,
    DuplicateAccount,
    ParseMetaData,
    MissingProjectId,
}

impl ZkErrorCode {
    /// The number that stands for the code in a record's status: the codes
    /// count up from 1001 in the order of their declaration.
    pub open spec fn number(self) -> int {
        match self {
            ZkErrorCode::ParseConfigData => 1001,
            ZkErrorCode::VerifyAttestation => 1002,
            ZkErrorCode::InvalidRequestLength => 1003,
            ZkErrorCode::InvalidMessagesLength => 1004,
            ZkErrorCode::GetJsonValueFail => 1005,
            ZkErrorCode::InvalidJsonValueSize => 1006,
            ZkErrorCode::CannotFoundTimestamp => 1007,
            ZkErrorCode::ParseTimestampFailed => 1008,
            ZkErrorCode::InvalidRequestOrder => 1009,
            ZkErrorCode::InvalidRequestUrl => 1010,
            ZkErrorCode::DuplicateAccount => 1011,
            ZkErrorCode::ParseMetaData => 1012,
            ZkErrorCode::MissingProjectId => 1013,
        }
    }

    /// The message of an error that is raised with the code alone: the
    /// code's qualified name.
    pub open spec fn label(self) -> Text {
        match self {
            ZkErrorCode::ParseConfigData => "ZkErrorCode::ParseConfigData"@,
            ZkErrorCode::VerifyAttestation => "ZkErrorCode::VerifyAttestation"@,
            ZkErrorCode::InvalidRequestLength => "ZkErrorCode::InvalidRequestLength"@,
            ZkErrorCode::InvalidMessagesLength => "ZkErrorCode::InvalidMessagesLength"@,
            ZkErrorCode::GetJsonValueFail => "ZkErrorCode::GetJsonValueFail"@,
            ZkErrorCode::InvalidJsonValueSize => "ZkErrorCode::InvalidJsonValueSize"@,
            ZkErrorCode::CannotFoundTimestamp => "ZkErrorCode::CannotFoundTimestamp"@,
            ZkErrorCode::ParseTimestampFailed => "ZkErrorCode::ParseTimestampFailed"@,
            ZkErrorCode::InvalidRequestOrder => "ZkErrorCode::InvalidRequestOrder"@,
            ZkErrorCode::InvalidRequestUrl => "ZkErrorCode::InvalidRequestUrl"@,
            ZkErrorCode::DuplicateAccount => "ZkErrorCode::DuplicateAccount"@,
            ZkErrorCode::ParseMetaData => "ZkErrorCode::ParseMetaData"@,
            ZkErrorCode::MissingProjectId => "ZkErrorCode::MissingProjectId"@,
        }
    }

    /// The code's qualified name.
    pub fn name(&self) -> (r: String)
        ensures
            r@ == self.label(),
    {
        match self {
            ZkErrorCode::ParseConfigData => "ZkErrorCode::ParseConfigData".to_string(),
            ZkErrorCode::VerifyAttestation => "ZkErrorCode::VerifyAttestation".to_string(),
            ZkErrorCode::InvalidRequestLength => "ZkErrorCode::InvalidRequestLength".to_string(),
            ZkErrorCode::InvalidMessagesLength => "ZkErrorCode::InvalidMessagesLength".to_string(),
            ZkErrorCode::GetJsonValueFail => "ZkErrorCode::GetJsonValueFail".to_string(),
            ZkErrorCode::InvalidJsonValueSize => "ZkErrorCode::InvalidJsonValueSize".to_string(),
            ZkErrorCode::CannotFoundTimestamp => "ZkErrorCode::CannotFoundTimestamp".to_string(),
            ZkErrorCode::ParseTimestampFailed => "ZkErrorCode::ParseTimestampFailed".to_string(),
            ZkErrorCode::InvalidRequestOrder => "ZkErrorCode::InvalidRequestOrder".to_string(),
            ZkErrorCode::InvalidRequestUrl => "ZkErrorCode::InvalidRequestUrl".to_string(),
            ZkErrorCode::DuplicateAccount => "ZkErrorCode::DuplicateAccount".to_string(),
            ZkErrorCode::ParseMetaData => "ZkErrorCode::ParseMetaData".to_string(),
            ZkErrorCode::MissingProjectId => "ZkErrorCode::MissingProjectId".to_string(),
        }
    }
}

/// A failure as contracts speak of it: the code and the message.
pub struct Failure {
    pub code: ZkErrorCode,
    pub msg: Text,
}

/// The failure that carries the code's own name as its message.
pub open spec fn failure_of(code: ZkErrorCode) -> Failure {
    Failure { code, msg: code.label() }
}

/// Whether a result is the one that `model` describes: the value with that
/// model, or the error with that code and message.
pub open spec fn agrees<T: View>(r: Result<T, ZktlsError>, model: Result<T::V, Failure>) -> bool {
    match model {
        Ok(value) => r matches Ok(x) && x@ == value,
        Err(failure) => r matches Err(e) && e@ == failure,
    }
}

/// An error of the pipeline.
#[derive(Debug)]
pub struct ZktlsError {
    code: ZkErrorCode,
    msg: String,
}

impl View for ZktlsError {
    type V = Failure;

    closed spec fn view(&self) -> Failure {
        Failure { code: self.code, msg: self.msg@ }
    }
}

impl ZktlsError {
    /// The error with the given code and message.
    pub fn new(code: ZkErrorCode, msg: String) -> (r: Self)
        ensures
            r@ == (Failure { code, msg: msg@ }),
    {
        Self { code, msg }
    }

    /// The error with the given code and the code's name as its message.
    pub fn from_code(code: ZkErrorCode) -> (r: Self)
        ensures
            r@ == failure_of(code),
    {
        Self { code, msg: code.name() }
    }

    /// The code of the error.
    pub fn code(&self) -> (r: ZkErrorCode)
        ensures
            r == self@.code,
    {
        self.code
    }

    /// The number of the error's code.
    pub fn icode(&self) -> (r: i16)
        ensures
            r == self@.code.number(),
    {
        match self.code {
            ZkErrorCode::ParseConfigData => 1001,
            ZkErrorCode::VerifyAttestation => 1002,
            ZkErrorCode::InvalidRequestLength => 1003,
            ZkErrorCode::InvalidMessagesLength => 1004,
            ZkErrorCode::GetJsonValueFail => 1005,
            ZkErrorCode::InvalidJsonValueSize => 1006,
            ZkErrorCode::CannotFoundTimestamp => 1007,
            ZkErrorCode::ParseTimestampFailed => 1008,
            ZkErrorCode::InvalidRequestOrder => 1009,
            ZkErrorCode::InvalidRequestUrl => 1010,
            ZkErrorCode::DuplicateAccount => 1011,
            ZkErrorCode::ParseMetaData => 1012,
            ZkErrorCode::MissingProjectId => 1013,
        }
    }

    /// The message of the error.
    pub fn msg(&self) -> (r: String)
        ensures
            r@ == self@.msg,
    {
        self.msg.clone()
    }
}

} // verus!

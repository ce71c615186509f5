//! Errors: what the inference engine reports, and what an inference call returns.

use crate::codec::CodecError;
use vstd::prelude::*;

verus! {

/// The code that the engine gives with an error.
#[derive(Clone, Copy, Debug, PartialEq, Eq, Structural)]
pub enum ErrorCode {
    Unknown,
    Internal,
    NotFound,
    InvalidArg,
    Unavailable,
    Unsupported,
    AlreadyExists,
}

/// The name of an engine error code.
pub open spec fn code_name(code: ErrorCode) -> Seq<char> {
    match code {
        ErrorCode::Unknown => "Unknown"@,
        ErrorCode::Internal => "Internal"@,
        ErrorCode::NotFound => "Not found"@,
        ErrorCode::InvalidArg => "Invalid argument"@,
        ErrorCode::Unavailable => "Unavailable"@,
        ErrorCode::Unsupported => "Unsupported"@,
        ErrorCode::AlreadyExists => "Already exists"@,
    }
}

/// The engine error code of a number; `Unknown` for a number without one.
pub open spec fn code_of_number(number: u32) -> ErrorCode {
    if number == 1 {
        ErrorCode::Internal
    } else if number == 2 {
        ErrorCode::NotFound
    } else if number == 3 {
        ErrorCode::InvalidArg
    } else if number == 4 {
        ErrorCode::Unavailable
    } else if number == 5 {
        ErrorCode::Unsupported
    } else if number == 6 {
        ErrorCode::AlreadyExists
    } else {
        ErrorCode::Unknown
    }
}

/// The number of an engine error code.
pub open spec fn number_of_code(code: ErrorCode) -> u32 {
    match code {
        ErrorCode::Unknown => 0,
        ErrorCode::Internal => 1,
        ErrorCode::NotFound => 2,
        ErrorCode::InvalidArg => 3,
        ErrorCode::Unavailable => 4,
        ErrorCode::Unsupported => 5,
        ErrorCode::AlreadyExists => 6,
    }
}

impl ErrorCode {
    /// The number of this engine error code; `from_number` reads it back.
    pub fn number(self) -> (number: u32)
        ensures
            number == number_of_code(self),
            code_of_number(number) == self,
    {
        match self {
            ErrorCode::Unknown => 0,
            ErrorCode::Internal => 1,
            ErrorCode::NotFound => 2,
            ErrorCode::InvalidArg => 3,
            ErrorCode::Unavailable => 4,
            ErrorCode::Unsupported => 5,
            ErrorCode::AlreadyExists => 6,
        }
    }

    /// The engine error code of a number; `Unknown` for a number without one.
    pub fn from_number(number: u32) -> (code: ErrorCode)
        ensures
            code == code_of_number(number),
    {
        if number == 1 {
            ErrorCode::Internal
        } else if number == 2 {
            ErrorCode::NotFound
        } else if number == 3 {
            ErrorCode::InvalidArg
        } else if number == 4 {
            ErrorCode::Unavailable
        } else if number == 5 {
            ErrorCode::Unsupported
        } else if number == 6 {
            ErrorCode::AlreadyExists
        } else {
            ErrorCode::Unknown
        }
    }
}

/// An error as the engine reports it: a code and a message.
#[derive(Debug)]
pub struct TritonError {
    pub code: ErrorCode,
    pub msg: String,
}

impl TritonError {
    /// An error with this code and this message.
    pub fn new(code: ErrorCode, msg: String) -> (error: TritonError)
        ensures
            error.code == code,
            error.msg@ == msg@,
    {
        TritonError { code, msg }
    }

    /// The message of the error.
    pub fn msg(&self) -> (msg: String)
        ensures
            msg@ == self.msg@,
    {
        self.msg.clone()
    }

    /// The code of the error.
    pub fn code(&self) -> (code: ErrorCode)
        ensures
            code == self.code,
    {
        self.code
    }

    /// The name of the code of the error.
    pub fn code_string(&self) -> (name: String)
        ensures
            name@ == code_name(self.code),
    {
        let name = match self.code {
            ErrorCode::Unknown => "Unknown",
            ErrorCode::Internal => "Internal",
            ErrorCode::NotFound => "Not found",
            ErrorCode::InvalidArg => "Invalid argument",
            ErrorCode::Unavailable => "Unavailable",
            ErrorCode::Unsupported => "Unsupported",
            ErrorCode::AlreadyExists => "Already exists",
        };
        name.to_owned()
    }
}

/// The kinds of failure of an inference call.
#[derive(Clone, Copy, Debug, PartialEq, Eq, Structural)]
pub enum ErrorKind {
    /// An input names a datatype that is not recognized.
    InvalidDatatype,
    /// A dimension is negative, the values of a tensor do not fill its shape, or
    /// the raw buffers of a request are not one for each input.
    InvalidShape,
    /// The framing of a `BYTES` buffer reaches past its end.
    TruncatedBuffer,
    /// The engine knows no model of the name that the request gives.
    ModelNotFound,
    /// The engine has the model, but not in the version that the request gives.
    InvalidVersion,
    /// The engine refused a step of building or submitting the request.
    EngineRejected,
    /// The completion channel closed without a response.
    ReceiveFailed,
    /// The response arrived and carries an error of the engine.
    EngineReportedError,
}

/// The failure of an inference call: its kind and a message for people.
#[derive(Debug)]
pub struct InferError {
    pub kind: ErrorKind,
    pub msg: String,
}

/// The kind of failure that a codec error becomes.
pub open spec fn kind_of_codec_error(error: CodecError) -> ErrorKind {
    match error {
        CodecError::InvalidDatatype => ErrorKind::InvalidDatatype,
        CodecError::InvalidShape => ErrorKind::InvalidShape,
        CodecError::TruncatedBuffer => ErrorKind::TruncatedBuffer,
    }
}

/// The message that goes with a codec error.
pub open spec fn message_of_codec_error(error: CodecError) -> Seq<char> {
    match error {
        CodecError::InvalidDatatype => "Invalid datatype"@,
        CodecError::InvalidShape => "Invalid shape"@,
        CodecError::TruncatedBuffer => "Truncated buffer"@,
    }
}

/// What an `InferError` holds.
pub struct InferErrorView {
    pub kind: ErrorKind,
    pub msg: Seq<char>,
}

impl View for InferError {
    type V = InferErrorView;

    open spec fn view(&self) -> InferErrorView {
        InferErrorView { kind: self.kind, msg: self.msg@ }
    }
}

impl InferErrorView {
    /// The failure that a codec error becomes.
    pub open spec fn of_codec(error: CodecError) -> InferErrorView {
        InferErrorView { kind: kind_of_codec_error(error), msg: message_of_codec_error(error) }
    }
}

impl InferError {
    /// A failure of this kind with this message.
    pub fn new(kind: ErrorKind, msg: String) -> (error: InferError)
        ensures
            error@ == (InferErrorView { kind, msg: msg@ }),
    {
        InferError { kind, msg }
    }

    /// The failure that a codec error becomes.
    pub fn from_codec(error: CodecError) -> (failure: InferError)
        ensures
            failure@ == InferErrorView::of_codec(error),
    {
        match error {
            CodecError::InvalidDatatype => InferError {
                kind: ErrorKind::InvalidDatatype,
                msg: "Invalid datatype".to_owned(),
            },
            CodecError::InvalidShape => InferError {
                kind: ErrorKind::InvalidShape,
                msg: "Invalid shape".to_owned(),
            },
            CodecError::TruncatedBuffer => InferError {
                kind: ErrorKind::TruncatedBuffer,
                msg: "Truncated buffer".to_owned(),
            },
        }
    }

    /// The failure that a refusal of the engine becomes: it keeps the engine's message.
    pub fn rejected(error: &TritonError) -> (failure: InferError)
        ensures
            failure@ == (InferErrorView { kind: ErrorKind::EngineRejected, msg: error.msg@ }),
    {
        InferError { kind: ErrorKind::EngineRejected, msg: error.msg.clone() }
    }

    /// The message of the failure.
    pub fn to_string(&self) -> (msg: String)
        ensures
            msg@ == self.msg@,
    {
        self.msg.clone()
    }
}

} // verus!

//! The failures of the service, and how each is reported to a client.

use vstd::prelude::*;
use crate::text::{concat, push_str};

verus! {

/// A failure of a request.
#[derive(Debug, Clone, PartialEq)]
pub enum AppError {
    /// No voice has the identifier that the text names.
    VoiceNotFound(String),
    /// The request itself is not acceptable; the text says why.
    BadRequest(String),
    /// Phonemizing, synthesis or audio encoding failed; the text says how.
    TtsError(String),
    /// The markup is not acceptable; the text says why.
    DslError(String),
    /// A file could not be read; the text is the system's message.
    IoError(String),
    /// A voice's metadata is not of the expected form; the text is the
    /// parser's message.
    JsonError(String),
}

/// A failure as it is sent to a client: a message for people and a stable
/// code for programs.
#[derive(Debug, Clone, PartialEq)]
pub struct ErrorResponse {
    pub error: String,
    pub code: String,
}

/// Status of a request that names something that does not exist.
pub const STATUS_NOT_FOUND: u16 = 404;

/// Status of a request that is not acceptable.
pub const STATUS_BAD_REQUEST: u16 = 400;

/// Status of a request that failed inside the service.
pub const STATUS_INTERNAL_SERVER_ERROR: u16 = 500;

/// The text that the failure `e` carries.
pub open spec fn detail_of(e: AppError) -> Seq<char> {
    match e {
        AppError::VoiceNotFound(s) => s@,
        AppError::BadRequest(s) => s@,
        AppError::TtsError(s) => s@,
        AppError::DslError(s) => s@,
        AppError::IoError(s) => s@,
        AppError::JsonError(s) => s@,
    }
}

/// The status with which the failure `e` is answered: missing voices are
/// not found, bad requests and bad markup are the client's fault, all else
/// is the service's.
pub open spec fn status_of(e: AppError) -> u16 {
    match e {
        AppError::VoiceNotFound(_) => STATUS_NOT_FOUND,
        AppError::BadRequest(_) => STATUS_BAD_REQUEST,
        AppError::DslError(_) => STATUS_BAD_REQUEST,
        AppError::TtsError(_) => STATUS_INTERNAL_SERVER_ERROR,
        AppError::IoError(_) => STATUS_INTERNAL_SERVER_ERROR,
        AppError::JsonError(_) => STATUS_INTERNAL_SERVER_ERROR,
    }
}

/// The machine-readable code of the failure `e`.
pub open spec fn code_of(e: AppError) -> Seq<char> {
    match e {
        AppError::VoiceNotFound(_) => "VOICE_NOT_FOUND"@,
        AppError::BadRequest(_) => "BAD_REQUEST"@,
        AppError::TtsError(_) => "TTS_ERROR"@,
        AppError::DslError(_) => "DSL_ERROR"@,
        AppError::IoError(_) => "IO_ERROR"@,
        AppError::JsonError(_) => "JSON_ERROR"@,
    }
}

/// The message of the failure `e` for a client: a sentence around the
/// identifier of a missing voice, the carried text as it is otherwise.
pub open spec fn message_of(e: AppError) -> Seq<char> {
    match e {
        AppError::VoiceNotFound(v) => "Voice '"@ + v@ + "' not found"@,
        _ => detail_of(e),
    }
}

/// What the kind of the failure `e` is called in a log line, before the
/// carried text.
pub open spec fn heading_of(e: AppError) -> Seq<char> {
    match e {
        AppError::VoiceNotFound(_) => "Voice not found: "@,
        AppError::BadRequest(_) => "Bad request: "@,
        AppError::TtsError(_) => "TTS generation failed: "@,
        AppError::DslError(_) => "Invalid DSL syntax: "@,
        AppError::IoError(_) => "IO error: "@,
        AppError::JsonError(_) => "JSON error: "@,
    }
}

impl AppError {
    /// The text that this failure carries.
    pub fn detail(&self) -> (s: &String)
        ensures
            s@ == detail_of(*self),
    {
        match self {
            AppError::VoiceNotFound(s) => s,
            AppError::BadRequest(s) => s,
            AppError::TtsError(s) => s,
            AppError::DslError(s) => s,
            AppError::IoError(s) => s,
            AppError::JsonError(s) => s,
        }
    }

    /// The status with which this failure is answered.
    pub fn status(&self) -> (status: u16)
        ensures
            status == status_of(*self),
    {
        match self {
            AppError::VoiceNotFound(_) => STATUS_NOT_FOUND,
            AppError::BadRequest(_) => STATUS_BAD_REQUEST,
            AppError::DslError(_) => STATUS_BAD_REQUEST,
            AppError::TtsError(_) => STATUS_INTERNAL_SERVER_ERROR,
            AppError::IoError(_) => STATUS_INTERNAL_SERVER_ERROR,
            AppError::JsonError(_) => STATUS_INTERNAL_SERVER_ERROR,
        }
    }

    /// The machine-readable code of this failure.
    pub fn code(&self) -> (code: &'static str)
        ensures
            code@ == code_of(*self),
    {
        match self {
            AppError::VoiceNotFound(_) => "VOICE_NOT_FOUND",
            AppError::BadRequest(_) => "BAD_REQUEST",
            AppError::TtsError(_) => "TTS_ERROR",
            AppError::DslError(_) => "DSL_ERROR",
            AppError::IoError(_) => "IO_ERROR",
            AppError::JsonError(_) => "JSON_ERROR",
        }
    }

    /// The message of this failure for a client.
    pub fn message(&self) -> (message: String)
        ensures
            message@ == message_of(*self),
    {
        match self {
            AppError::VoiceNotFound(v) => {
                let mut message = concat("Voice '", v.as_str());
                push_str(&mut message, "' not found");
                message
            },
            _ => self.detail().clone(),
        }
    }

    /// This failure as one line of text: its kind, then the text it carries.
    pub fn describe(&self) -> (line: String)
        ensures
            line@ == heading_of(*self) + detail_of(*self),
    {
        let heading = match self {
            AppError::VoiceNotFound(_) => "Voice not found: ",
            AppError::BadRequest(_) => "Bad request: ",
            AppError::TtsError(_) => "TTS generation failed: ",
            AppError::DslError(_) => "Invalid DSL syntax: ",
            AppError::IoError(_) => "IO error: ",
            AppError::JsonError(_) => "JSON error: ",
        };
        concat(heading, self.detail().as_str())
    }

    /// This failure as it is sent to a client.
    pub fn response(&self) -> (response: ErrorResponse)
        ensures
            response.error@ == message_of(*self),
            response.code@ == code_of(*self),
    {
        ErrorResponse { error: self.message(), code: self.code().to_owned() }
    }
}

} // verus!

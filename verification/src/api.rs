//! The requests and answers of the service, and what is checked of a
//! request before any work is done for it.

use vstd::prelude::*;
use vstd::string::StrSliceExecFns;
use crate::error::AppError;
use crate::tts::voice::VoiceInfo;

verus! {

/// The largest number of characters of a text to speak.
pub const MAX_TEXT_CHARS: usize = 10000;

/// The number of bytes of one second of audio as the player counts it when
/// it waits for the end of a playback.
pub const PLAYBACK_BYTES_PER_SECOND: usize = 88200;

/// A request to speak a text with a voice.
#[derive(Debug, Clone)]
pub struct SpeakRequest {
    pub text: String,
    pub voice: String,
}

/// The answer to a request for the voices.
#[derive(Debug, Clone)]
pub struct VoicesResponse {
    pub voices: Vec<VoiceInfo>,
}

/// The answer to a request for the state of the service.
#[derive(Debug, Clone)]
pub struct HealthResponse {
    pub status: String,
    pub version: String,
}

/// Why a request with the text `text` and the voice `voice` is refused, if
/// it is: the text must not be empty nor longer than 10000 characters, and
/// the voice must be named. The first of these that fails is reported.
pub open spec fn rejection(text: Seq<char>, voice: Seq<char>) -> Option<Seq<char>> {
    if text.len() == 0 {
        Some("Text cannot be empty"@)
    } else if text.len() > MAX_TEXT_CHARS {
        Some("Text too long (max 10000 chars)"@)
    } else if voice.len() == 0 {
        Some("Voice cannot be empty"@)
    } else {
        None
    }
}

impl SpeakRequest {
    /// Checks the request before any work is done for it.
    pub fn validate(&self) -> (r: Result<(), AppError>)
        ensures
            match r {
                Ok(_) => rejection(self.text@, self.voice@) is None,
                Err(AppError::BadRequest(why)) => rejection(self.text@, self.voice@) == Some(why@),
                Err(_) => false,
            },
    {
        let length = self.text.as_str().unicode_len();
        if length == 0 {
            Err(AppError::BadRequest("Text cannot be empty".to_owned()))
        } else if length > MAX_TEXT_CHARS {
            Err(AppError::BadRequest("Text too long (max 10000 chars)".to_owned()))
        } else if self.voice.as_str().unicode_len() == 0 {
            Err(AppError::BadRequest("Voice cannot be empty".to_owned()))
        } else {
            Ok(())
        }
    }
}

impl VoicesResponse {
    /// The answer that lists `voices`.
    pub fn new(voices: Vec<VoiceInfo>) -> (response: VoicesResponse)
        ensures
            response.voices == voices,
    {
        VoicesResponse { voices }
    }
}

impl HealthResponse {
    /// The answer of a service that runs, in the given version.
    pub fn ok(version: &str) -> (response: HealthResponse)
        ensures
            response.status@ == "ok"@,
            response.version@ == version@,
    {
        HealthResponse { status: "ok".to_owned(), version: version.to_owned() }
    }
}

/// The number of seconds to wait for audio of `wav_len` bytes to finish
/// playing: its length at 88200 bytes a second, rounded down, and one more.
pub fn playback_seconds(wav_len: usize) -> (seconds: u64)
    ensures
        seconds == wav_len / PLAYBACK_BYTES_PER_SECOND + 1,
{
    (wav_len / PLAYBACK_BYTES_PER_SECOND) as u64 + 1
}

} // verus!

use piper_tts::api::{playback_seconds, HealthResponse, SpeakRequest, VoicesResponse, MAX_TEXT_CHARS};
use piper_tts::error::AppError;
use piper_tts::tts::voice::VoiceInfo;

fn request(text: &str, voice: &str) -> SpeakRequest {
    SpeakRequest { text: text.to_string(), voice: voice.to_string() }
}

#[test]
fn request_with_text_and_voice_is_accepted() {
    assert_eq!(request("Hello", "alba").validate(), Ok(()));
    assert_eq!(request(&"a".repeat(10000), "alba").validate(), Ok(()));
    assert_eq!(MAX_TEXT_CHARS, 10000);
}

#[test]
fn empty_text_is_refused() {
    assert_eq!(
        request("", "alba").validate(),
        Err(AppError::BadRequest("Text cannot be empty".to_string()))
    );
    assert_eq!(
        request("", "").validate(),
        Err(AppError::BadRequest("Text cannot be empty".to_string()))
    );
}

#[test]
fn text_over_the_limit_is_refused() {
    assert_eq!(
        request(&"a".repeat(10001), "alba").validate(),
        Err(AppError::BadRequest("Text too long (max 10000 chars)".to_string()))
    );
    assert_eq!(
        request(&"a".repeat(10001), "").validate(),
        Err(AppError::BadRequest("Text too long (max 10000 chars)".to_string()))
    );
}

#[test]
fn text_length_is_counted_in_characters() {
    assert_eq!(request(&"\u{e9}".repeat(10000), "alba").validate(), Ok(()));
    assert!(request(&"\u{e9}".repeat(10001), "alba").validate().is_err());
}

#[test]
fn empty_voice_is_refused() {
    assert_eq!(
        request("Hello", "").validate(),
        Err(AppError::BadRequest("Voice cannot be empty".to_string()))
    );
}

#[test]
fn health_answer_is_ok_with_the_version() {
    let health = HealthResponse::ok("0.1.0");
    assert_eq!(health.status, "ok");
    assert_eq!(health.version, "0.1.0");
}

#[test]
fn voices_answer_holds_the_voices() {
    let info = VoiceInfo {
        id: "en_GB-alba-medium".to_string(),
        name: "Alba".to_string(),
        language: "en".to_string(),
    };
    let response = VoicesResponse::new(vec![info]);
    assert_eq!(response.voices.len(), 1);
    assert_eq!(response.voices[0].name, "Alba");
}

#[test]
fn playback_wait_is_one_second_more_than_the_audio() {
    assert_eq!(playback_seconds(0), 1);
    assert_eq!(playback_seconds(88199), 1);
    assert_eq!(playback_seconds(88200), 2);
    assert_eq!(playback_seconds(1_000_000), 12);
}

use piper_tts::error::AppError;
use piper_tts::tts::voice::{
    config_file_name, model_file_name, AudioConfig, ConfigFile, EspeakConfig, PhonemeTable, Voice,
    VoiceConfig,
};

fn config(language: Option<&str>) -> VoiceConfig {
    VoiceConfig {
        audio: AudioConfig { sample_rate: 22050 },
        espeak: language.map(|voice| EspeakConfig { voice: voice.to_string() }),
        phoneme_id_map: PhonemeTable::new(),
    }
}

#[test]
fn voice_files_are_named_after_the_voice() {
    assert_eq!(model_file_name("en_GB-alba-medium"), "en_GB-alba-medium.onnx");
    assert_eq!(config_file_name("en_GB-alba-medium"), "en_GB-alba-medium.onnx.json");
}

#[test]
fn language_defaults_to_english() {
    assert_eq!(config(None).language(), "en");
    assert_eq!(config(Some("en-gb-x-rp")).language(), "en-gb-x-rp");
}

#[test]
fn voice_without_model_is_not_found() {
    let r = Voice::load("ghost", false, ConfigFile::Parsed(config(None)));
    assert_eq!(r.unwrap_err(), AppError::VoiceNotFound("ghost".to_string()));
    let r = Voice::load("ghost", false, ConfigFile::Missing);
    assert_eq!(r.unwrap_err(), AppError::VoiceNotFound("ghost".to_string()));
}

#[test]
fn voice_without_metadata_is_not_found() {
    let r = Voice::load("alba", true, ConfigFile::Missing);
    assert_eq!(
        r.unwrap_err(),
        AppError::VoiceNotFound("alba (missing config file)".to_string())
    );
}

#[test]
fn unreadable_metadata_is_an_io_failure() {
    let r = Voice::load("alba", true, ConfigFile::Unreadable("permission denied".to_string()));
    assert_eq!(r.unwrap_err(), AppError::IoError("permission denied".to_string()));
}

#[test]
fn malformed_metadata_is_a_format_failure() {
    let r = Voice::load("alba", true, ConfigFile::Malformed("missing field `audio`".to_string()));
    assert_eq!(r.unwrap_err(), AppError::JsonError("missing field `audio`".to_string()));
}

#[test]
fn voice_with_model_and_metadata_loads() {
    let voice = Voice::load("alba", true, ConfigFile::Parsed(config(Some("en")))).unwrap();
    assert_eq!(voice.id, "alba");
    assert_eq!(voice.model_file, "alba.onnx");
    assert_eq!(voice.config.audio.sample_rate, 22050);
    assert_eq!(voice.config.language(), "en");
}

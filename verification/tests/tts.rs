use piper_tts::error::AppError;
use piper_tts::tts::voice::{AudioConfig, ConfigFile, EspeakConfig, PhonemeTable, Voice, VoiceConfig};
use piper_tts::tts::{list_voices, parse_voice_name, voice_id_of_file, voice_ids, voice_info};

fn loaded(id: &str, language: Option<&str>) -> Result<Voice, AppError> {
    let config = VoiceConfig {
        audio: AudioConfig { sample_rate: 22050 },
        espeak: language.map(|voice| EspeakConfig { voice: voice.to_string() }),
        phoneme_id_map: PhonemeTable::new(),
    };
    Voice::load(id, true, ConfigFile::Parsed(config))
}

#[test]
fn voice_name_is_the_capitalized_second_segment() {
    assert_eq!(parse_voice_name("en_GB-alba-medium"), "Alba");
    assert_eq!(parse_voice_name("en_US-lessac-high"), "Lessac");
    assert_eq!(parse_voice_name("de-thorsten"), "Thorsten");
    assert_eq!(parse_voice_name("a-b-c-d"), "B");
}

#[test]
fn voice_name_without_second_segment_is_the_identifier() {
    assert_eq!(parse_voice_name("alba"), "alba");
    assert_eq!(parse_voice_name(""), "");
    assert_eq!(parse_voice_name("en-"), "en-");
    assert_eq!(parse_voice_name("en--high"), "en--high");
}

#[test]
fn voice_name_uses_the_full_uppercase_mapping() {
    assert_eq!(parse_voice_name("de-\u{df}eta-low"), "SSeta");
    assert_eq!(parse_voice_name("x-1st-low"), "1st");
}

#[test]
fn model_files_name_their_voice() {
    assert_eq!(voice_id_of_file("en_GB-alba-medium.onnx"), Some("en_GB-alba-medium".to_string()));
    assert_eq!(voice_id_of_file("a.b.onnx"), Some("a.b".to_string()));
    assert_eq!(voice_id_of_file("en_GB-alba-medium.onnx.json"), None);
    assert_eq!(voice_id_of_file(".onnx"), None);
    assert_eq!(voice_id_of_file("onnx"), None);
    assert_eq!(voice_id_of_file("voice.ONNX"), None);
    assert_eq!(voice_id_of_file("voice.onnx "), None);
    assert_eq!(voice_id_of_file(""), None);
}

#[test]
fn voices_are_picked_in_the_order_of_the_files() {
    let names: Vec<String> = ["b.onnx", "b.onnx.json", "readme.txt", "a.onnx", ".onnx"]
        .iter()
        .map(|s| s.to_string())
        .collect();
    assert_eq!(voice_ids(&names), vec!["b".to_string(), "a".to_string()]);
    assert_eq!(voice_ids(&Vec::new()), Vec::<String>::new());
}

#[test]
fn voice_is_described_by_identifier_name_and_language() {
    let voice = loaded("en_GB-alba-medium", Some("en-gb")).unwrap();
    let info = voice_info(&voice);
    assert_eq!(info.id, "en_GB-alba-medium");
    assert_eq!(info.name, "Alba");
    assert_eq!(info.language, "en-gb");
}

#[test]
fn listing_leaves_out_what_did_not_load() {
    let candidates = vec![
        loaded("en_GB-alba-medium", None),
        Voice::load("broken", true, ConfigFile::Malformed("bad".to_string())),
        loaded("solo", Some("de")),
        Voice::load("gone", false, ConfigFile::Missing),
    ];
    let voices = list_voices(&candidates);
    assert_eq!(voices.len(), 2);
    assert_eq!(voices[0].id, "en_GB-alba-medium");
    assert_eq!(voices[0].name, "Alba");
    assert_eq!(voices[0].language, "en");
    assert_eq!(voices[1].id, "solo");
    assert_eq!(voices[1].name, "solo");
    assert_eq!(voices[1].language, "de");
    assert!(list_voices(&Vec::new()).is_empty());
}

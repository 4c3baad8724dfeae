use piper_tts::error::AppError;
use piper_tts::tts::piper::{
    clamp_sample, phonemes_to_ids, quantize, samples_to_wav, wav_outcome, WavStage,
    MAX_SAMPLE_RATE,
};
use piper_tts::tts::voice::PhonemeTable;

fn scaled(samples: &[f32]) -> Vec<i32> {
    samples.iter().map(|s| (s * 32767.0) as i32).collect()
}

#[test]
fn test_phonemes_to_ids_empty() {
    let map = PhonemeTable::new();
    let ids = phonemes_to_ids("", &map);
    // Should have at least BOS and EOS
    assert!(!ids.is_empty());
}

#[test]
fn test_samples_to_wav_empty() {
    let wav = samples_to_wav(&[], 22050).unwrap();
    // Should produce valid WAV header even for empty audio
    assert!(wav.starts_with(b"RIFF"));
}

#[test]
fn test_samples_to_wav_valid() {
    let samples: Vec<f32> = vec![0.0, 0.5, -0.5, 1.0, -1.0];
    let wav = samples_to_wav(&scaled(&samples), 22050).unwrap();
    assert!(wav.starts_with(b"RIFF"));
    assert!(wav.len() > 44); // Header + some data
}

#[test]
fn empty_table_gives_the_two_default_boundaries() {
    let map = PhonemeTable::new();
    assert_eq!(phonemes_to_ids("", &map), vec![0, 0]);
    assert_eq!(phonemes_to_ids("h\u{259}l\u{259}\u{28a}", &map), vec![0, 0]);
}

#[test]
fn phonemes_are_mapped_and_padded() {
    let mut map = PhonemeTable::new();
    map.insert('^', vec![1]);
    map.insert('$', vec![2]);
    map.insert('_', vec![0]);
    map.insert('a', vec![14]);
    map.insert('\u{259}', vec![59, 60]);
    assert_eq!(phonemes_to_ids("", &map), vec![1, 2]);
    assert_eq!(phonemes_to_ids("a", &map), vec![1, 14, 0, 2]);
    assert_eq!(
        phonemes_to_ids("a\u{259}", &map),
        vec![1, 14, 0, 59, 60, 0, 2]
    );
}

#[test]
fn unknown_phonemes_leave_only_their_padding() {
    let mut map = PhonemeTable::new();
    map.insert('_', vec![7]);
    map.insert('a', vec![14]);
    assert_eq!(phonemes_to_ids("xay", &map), vec![0, 7, 14, 7, 7, 0]);
}

#[test]
fn phonemes_without_padding_are_not_padded() {
    let mut map = PhonemeTable::new();
    map.insert('a', vec![14]);
    map.insert('b', vec![15]);
    assert_eq!(phonemes_to_ids("abz", &map), vec![0, 14, 15, 0]);
}

#[test]
fn boundary_entries_may_hold_several_identifiers_or_none() {
    let mut map = PhonemeTable::new();
    map.insert('^', vec![1, 1]);
    map.insert('$', vec![]);
    assert_eq!(phonemes_to_ids("q", &map), vec![1, 1]);
}

#[test]
fn table_entries_with_keys_of_one_character_are_taken_over() {
    let mut map = PhonemeTable::new();
    map.insert_entry("a", vec![14]);
    map.insert_entry("\u{259}", vec![59]);
    map.insert_entry("", vec![1]);
    map.insert_entry("ab", vec![2]);
    assert_eq!(map.get('a'), Some(&vec![14]));
    assert_eq!(map.get('\u{259}'), Some(&vec![59]));
    assert_eq!(map.get('b'), None);
    assert_eq!(phonemes_to_ids("ab", &map), vec![0, 14, 0]);
}

#[test]
fn half_scale_sample_is_written_as_16383() {
    let wav = samples_to_wav(&scaled(&[0.5]), 22050).unwrap();
    assert_eq!(wav.len(), 46);
    assert_eq!(&wav[44..], &[0xff, 0x3f]);
}

#[test]
fn later_table_entry_replaces_the_earlier() {
    let mut map = PhonemeTable::new();
    map.insert('a', vec![1]);
    map.insert('a', vec![2, 3]);
    assert_eq!(map.get('a'), Some(&vec![2, 3]));
    assert_eq!(map.get('b'), None);
}

#[test]
fn samples_are_clamped_not_wrapped() {
    assert_eq!(clamp_sample(0), 0);
    assert_eq!(clamp_sample(32767), 32767);
    assert_eq!(clamp_sample(32768), 32767);
    assert_eq!(clamp_sample(65534), 32767);
    assert_eq!(clamp_sample(i32::MAX), 32767);
    assert_eq!(clamp_sample(-32768), -32768);
    assert_eq!(clamp_sample(-32769), -32768);
    assert_eq!(clamp_sample(i32::MIN), -32768);
    assert_eq!(quantize(&scaled(&[2.0, -2.0, 0.5])), vec![32767, -32768, 16383]);
}

#[test]
fn sample_beyond_full_scale_encodes_to_the_maximum() {
    let wav = samples_to_wav(&scaled(&[2.0]), 22050).unwrap();
    assert_eq!(&wav[44..], &[0xff, 0x7f]);
    let wav = samples_to_wav(&scaled(&[-2.0]), 22050).unwrap();
    assert_eq!(&wav[44..], &[0x00, 0x80]);
}

#[test]
fn empty_audio_is_a_header_with_an_empty_data_chunk() {
    let wav = samples_to_wav(&[], 22050).unwrap();
    let expected: Vec<u8> = vec![
        b'R', b'I', b'F', b'F', 36, 0, 0, 0, b'W', b'A', b'V', b'E', b'f', b'm', b't', b' ', 16,
        0, 0, 0, 1, 0, 1, 0, 0x22, 0x56, 0, 0, 0x44, 0xac, 0, 0, 2, 0, 16, 0, b'd', b'a', b't',
        b'a', 0, 0, 0, 0,
    ];
    assert_eq!(wav, expected);
}

#[test]
fn audio_is_written_byte_for_byte() {
    let wav = samples_to_wav(&[0, 1, -1, 258, -32768, 40000], 16000).unwrap();
    let expected: Vec<u8> = vec![
        b'R', b'I', b'F', b'F', 48, 0, 0, 0, b'W', b'A', b'V', b'E', b'f', b'm', b't', b' ', 16,
        0, 0, 0, 1, 0, 1, 0, 0x80, 0x3e, 0, 0, 0x00, 0x7d, 0, 0, 2, 0, 16, 0, b'd', b'a', b't',
        b'a', 12, 0, 0, 0, 0, 0, 1, 0, 0xff, 0xff, 2, 1, 0, 0x80, 0xff, 0x7f,
    ];
    assert_eq!(wav, expected);
}

#[test]
fn audio_reads_back_as_mono_16_bit() {
    let wav = samples_to_wav(&[5, -7, 70000], 44100).unwrap();
    let mut reader = hound::WavReader::new(std::io::Cursor::new(wav)).unwrap();
    let spec = reader.spec();
    assert_eq!(spec.channels, 1);
    assert_eq!(spec.bits_per_sample, 16);
    assert_eq!(spec.sample_rate, 44100);
    assert_eq!(spec.sample_format, hound::SampleFormat::Int);
    let samples: Vec<i16> = reader.samples::<i16>().map(|s| s.unwrap()).collect();
    assert_eq!(samples, vec![5, -7, 32767]);
}

#[test]
fn extreme_sample_rates_are_written() {
    let wav = samples_to_wav(&[], 1).unwrap();
    assert_eq!(&wav[24..32], &[1, 0, 0, 0, 2, 0, 0, 0]);
    let wav = samples_to_wav(&[], MAX_SAMPLE_RATE).unwrap();
    assert_eq!(&wav[24..32], &[0xff, 0xff, 0xff, 0x7f, 0xfe, 0xff, 0xff, 0xff]);
    assert_eq!(&wav[32..34], &[2, 0]);
}

#[test]
fn writer_failure_becomes_a_synthesis_failure() {
    assert_eq!(wav_outcome(Ok(vec![1, 2, 3])), Ok(vec![1, 2, 3]));
    assert_eq!(
        wav_outcome(Err((WavStage::Create, "disk full".to_string()))),
        Err(AppError::TtsError("Failed to create WAV writer: disk full".to_string()))
    );
    assert_eq!(
        wav_outcome(Err((WavStage::Write, "disk full".to_string()))),
        Err(AppError::TtsError("Failed to write sample: disk full".to_string()))
    );
    assert_eq!(
        wav_outcome(Err((WavStage::Finalize, "disk full".to_string()))),
        Err(AppError::TtsError("Failed to finalize WAV: disk full".to_string()))
    );
}

//! Voices: the metadata of a voice, its phoneme table, and the rules by
//! which a voice is found in storage.

use std::collections::HashMap;
use vstd::prelude::*;
use crate::error::AppError;
use crate::text::{chars_of, concat};

verus! {

/// The language that a voice speaks where its metadata names none.
pub open spec fn default_language() -> Seq<char> {
    "en"@
}

/// The key under which a phoneme table files `symbol`: its code point.
pub open spec fn key_of(symbol: char) -> u32 {
    symbol as u32
}

/// The table of a voice that maps a phoneme symbol to the identifiers that
/// the synthesis model knows it by. A symbol is one character; `^`, `_` and
/// `$` stand for the start of an utterance, the padding between phonemes and
/// the end of an utterance.
#[derive(Debug, Clone)]
pub struct PhonemeTable {
    ids: HashMap<u32, Vec<i64>>,
}

impl View for PhonemeTable {
    type V = Map<char, Seq<i64>>;

    closed spec fn view(&self) -> Map<char, Seq<i64>> {
        Map::new(
            |symbol: char| self.ids@.contains_key(key_of(symbol)),
            |symbol: char| self.ids@[key_of(symbol)]@,
        )
    }
}

impl PhonemeTable {
    /// The table without any symbol.
    pub fn new() -> (table: PhonemeTable)
        ensures
            table@ == Map::<char, Seq<i64>>::empty(),
    {
        let table = PhonemeTable { ids: HashMap::new() };
        assert(table@ =~= Map::<char, Seq<i64>>::empty());
        table
    }

    /// Maps `symbol` to `ids`, in place of what it was mapped to before.
    pub fn insert(&mut self, symbol: char, ids: Vec<i64>)
        ensures
            final(self)@ == old(self)@.insert(symbol, ids@),
    {
        self.ids.insert(symbol as u32, ids);
        assert(self.ids@ == old(self).ids@.insert(key_of(symbol), ids));
        assert forall|other: char| other != symbol implies #[trigger] key_of(other) != key_of(
            symbol,
        ) by {
            vstd::utf8::char_u32_cast(other, key_of(other));
            vstd::utf8::char_u32_cast(symbol, key_of(symbol));
        }
        assert(self@ =~= old(self)@.insert(symbol, ids@));
    }

    /// Takes over one entry of a table whose keys are texts: a key of one
    /// character is a symbol and is mapped to `ids`; a key of any other
    /// length can never be looked up, so the table stays as it is.
    pub fn insert_entry(&mut self, key: &str, ids: Vec<i64>)
        ensures
            final(self)@ == if key@.len() == 1 {
                old(self)@.insert(key@[0], ids@)
            } else {
                old(self)@
            },
    {
        let chars = chars_of(key);
        if chars.len() == 1 {
            self.insert(chars[0], ids);
        }
    }

    /// The identifiers of `symbol`, if the table has the symbol.
    pub fn get(&self, symbol: char) -> (ids: Option<&Vec<i64>>)
        ensures
            match ids {
                Some(ids) => self@.contains_key(symbol) && ids@ == self@[symbol],
                None => !self@.contains_key(symbol),
            },
    {
        let key: u32 = symbol as u32;
        self.ids.get(&key)
    }
}

/// The audio format of a voice.
#[derive(Debug, Clone)]
pub struct AudioConfig {
    pub sample_rate: u32,
}

/// The phonemizer settings of a voice.
#[derive(Debug, Clone)]
pub struct EspeakConfig {
    pub voice: String,
}

/// The metadata of a voice, as far as text processing and audio encoding
/// read it.
#[derive(Debug, Clone)]
pub struct VoiceConfig {
    pub audio: AudioConfig,
    pub espeak: Option<EspeakConfig>,
    pub phoneme_id_map: PhonemeTable,
}

/// The language code of the voice with the metadata `config`.
pub open spec fn language_of(config: VoiceConfig) -> Seq<char> {
    match config.espeak {
        Some(espeak) => espeak.voice@,
        None => default_language(),
    }
}

impl VoiceConfig {
    /// The language code that the phonemizer is run with: the one that the
    /// metadata names, `en` where it names none.
    pub fn language(&self) -> (language: String)
        ensures
            language@ == language_of(*self),
    {
        match &self.espeak {
            Some(espeak) => espeak.voice.clone(),
            None => "en".to_owned(),
        }
    }
}

/// A voice that was found in storage.
#[derive(Debug)]
pub struct Voice {
    pub id: String,
    pub config: VoiceConfig,
    /// The name of the model file inside the directory of voices.
    pub model_file: String,
}

/// What is known of a voice once it was listed.
#[derive(Debug, Clone)]
pub struct VoiceInfo {
    pub id: String,
    pub name: String,
    pub language: String,
}

/// What reading the metadata file of a voice gave.
#[derive(Debug)]
pub enum ConfigFile {
    /// There is no such file.
    Missing,
    /// The file could not be opened; the text is the system's message.
    Unreadable(String),
    /// The file does not hold metadata of the expected form; the text is
    /// the parser's message.
    Malformed(String),
    /// The metadata that the file holds.
    Parsed(VoiceConfig),
}

/// The name of the model file of the voice `voice_id`.
pub open spec fn model_file_of(voice_id: Seq<char>) -> Seq<char> {
    voice_id + ".onnx"@
}

/// The name of the metadata file of the voice `voice_id`, which lies
/// beside the model file.
pub open spec fn config_file_of(voice_id: Seq<char>) -> Seq<char> {
    voice_id + ".onnx.json"@
}

/// The name of the model file of the voice `voice_id`.
pub fn model_file_name(voice_id: &str) -> (name: String)
    ensures
        name@ == model_file_of(voice_id@),
{
    concat(voice_id, ".onnx")
}

/// The name of the metadata file of the voice `voice_id`.
pub fn config_file_name(voice_id: &str) -> (name: String)
    ensures
        name@ == config_file_of(voice_id@),
{
    concat(voice_id, ".onnx.json")
}

impl Voice {
    /// Decides what loading the voice `voice_id` gives, from what storage
    /// holds of it: whether its model file exists, and what reading its
    /// metadata file gave. A voice without a model file is not found,
    /// whatever else there is; one without a metadata file is not found
    /// either; metadata that cannot be read or understood is reported as
    /// such.
    pub fn load(voice_id: &str, model_exists: bool, config: ConfigFile) -> (r: Result<
        Voice,
        AppError,
    >)
        ensures
            match r {
                Ok(voice) => {
                    &&& model_exists
                    &&& config matches ConfigFile::Parsed(parsed)
                    &&& voice.config == parsed
                    &&& voice.id@ == voice_id@
                    &&& voice.model_file@ == model_file_of(voice_id@)
                },
                Err(AppError::VoiceNotFound(what)) => {
                    ||| !model_exists && what@ == voice_id@
                    ||| model_exists && config is Missing && what@ == voice_id@
                        + " (missing config file)"@
                },
                Err(AppError::IoError(why)) => {
                    &&& model_exists
                    &&& config matches ConfigFile::Unreadable(text)
                    &&& why@ == text@
                },
                Err(AppError::JsonError(why)) => {
                    &&& model_exists
                    &&& config matches ConfigFile::Malformed(text)
                    &&& why@ == text@
                },
                Err(_) => false,
            },
    {
        if !model_exists {
            return Err(AppError::VoiceNotFound(voice_id.to_owned()));
        }
        match config {
            ConfigFile::Missing => Err(
                AppError::VoiceNotFound(concat(voice_id, " (missing config file)")),
            ),
            ConfigFile::Unreadable(text) => Err(AppError::IoError(text)),
            ConfigFile::Malformed(text) => Err(AppError::JsonError(text)),
            ConfigFile::Parsed(parsed) => Ok(
                Voice {
                    id: voice_id.to_owned(),
                    config: parsed,
                    model_file: model_file_name(voice_id),
                },
            ),
        }
    }
}

} // verus!

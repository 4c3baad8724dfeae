//! The course of one request to speak: the markup is rendered, the
//! rendering is transcribed by the phonemizer, the transcription is encoded
//! for the synthesis model, the model is run, and its samples are packed
//! into a container. The first step that fails ends the request.
//!
//! Running the phonemizer and running the model are left to the caller. Each
//! function here takes what the last step gave and says what is to be done
//! next.

use vstd::prelude::*;
use crate::dsl::parser::tokenize;
use crate::dsl::process;
use crate::dsl::transforms::rendered;
use crate::error::AppError;
use crate::text::{texts_of, trimmed};
use crate::tts::piper::{
    encode_audio, espeak_args, espeak_args_of, is_encoding_of, needs_phonemizer, phoneme_ids,
    phonemes_of_run, phonemes_to_ids, EspeakRun,
};
use crate::tts::voice::{language_of, VoiceConfig};

verus! {

/// What is to be done next for a request.
#[derive(Debug)]
pub enum SpeakAction {
    /// Run the phonemizer with these arguments.
    Phonemize { args: Vec<String> },
    /// Run the synthesis model on these identifiers.
    Synthesize { ids: Vec<i64> },
    /// Answer the request with this.
    Finish(Result<Vec<u8>, AppError>),
}

/// Whether `action` is the step that follows the transcription `phonemes`
/// for a voice with the metadata `config`: the model is run on the
/// identifiers of the transcription; where there are none, the model is not
/// run and the request ends with audio without samples.
pub open spec fn follows_transcription(
    action: SpeakAction,
    phonemes: Seq<char>,
    config: VoiceConfig,
) -> bool {
    let ids = phoneme_ids(phonemes, config.phoneme_id_map@);
    match action {
        SpeakAction::Synthesize { ids: given } => ids.len() > 0 && given@ == ids,
        SpeakAction::Finish(r) => ids.len() == 0 && is_encoding_of(
            r,
            Seq::empty(),
            config.audio.sample_rate,
        ),
        SpeakAction::Phonemize { .. } => false,
    }
}

/// The step that follows a transcription.
pub fn after_transcription(phonemes: &str, config: &VoiceConfig) -> (action: SpeakAction)
    ensures
        follows_transcription(action, phonemes@, *config),
{
    let ids = phonemes_to_ids(phonemes, &config.phoneme_id_map);
    if ids.len() == 0 {
        let silence: Vec<i32> = Vec::new();
        SpeakAction::Finish(encode_audio(silence.as_slice(), config.audio.sample_rate))
    } else {
        SpeakAction::Synthesize { ids }
    }
}

/// The first step of a request to speak `text` with a voice that has the
/// metadata `config`: the phonemizer is run on the rendering of the markup in
/// the language of the voice. An empty rendering has the empty transcription,
/// for which the phonemizer is not run.
pub fn begin(text: &str, config: &VoiceConfig) -> (action: SpeakAction)
    ensures
        rendered(tokenize(text@)).len() > 0 ==> ({
            &&& action matches SpeakAction::Phonemize { args }
            &&& texts_of(args@) == espeak_args_of(rendered(tokenize(text@)), language_of(*config))
        }),
        rendered(tokenize(text@)).len() == 0 ==> follows_transcription(
            action,
            Seq::empty(),
            *config,
        ),
{
    let plain = process(text);
    if needs_phonemizer(plain.as_str()) {
        let language = config.language();
        SpeakAction::Phonemize { args: espeak_args(plain.as_str(), language.as_str()) }
    } else {
        let action = after_transcription(plain.as_str(), config);
        assert(plain@ =~= Seq::<char>::empty());
        action
    }
}

/// The step that follows a run of the phonemizer: a run that went wrong
/// ends the request with its failure; otherwise the output of the run,
/// without the white space around it, is the transcription.
pub fn after_phonemizer(run: EspeakRun, config: &VoiceConfig) -> (action: SpeakAction)
    ensures
        match run {
            EspeakRun::Finished(output) => follows_transcription(
                action,
                trimmed(output@),
                *config,
            ),
            EspeakRun::Failed(errors) => {
                &&& action matches SpeakAction::Finish(Err(AppError::TtsError(message)))
                &&& message@ == "espeak-ng failed: "@ + errors@
            },
            EspeakRun::NotStarted(why) => {
                &&& action matches SpeakAction::Finish(Err(AppError::TtsError(message)))
                &&& message@ == "Failed to run espeak-ng (is it installed?): "@ + why@
            },
        },
{
    match phonemes_of_run(run) {
        Ok(phonemes) => after_transcription(phonemes.as_str(), config),
        Err(e) => SpeakAction::Finish(Err(e)),
    }
}

/// The answer to a request, given what the synthesis model gave: its
/// failure, or its samples packed into a container at the rate of the voice.
/// The samples are scaled samples, in units of 1/32767 of full scale.
pub fn after_synthesis(synthesized: Result<Vec<i32>, AppError>, config: &VoiceConfig) -> (r:
    Result<Vec<u8>, AppError>)
    ensures
        match synthesized {
            Ok(samples) => is_encoding_of(r, samples@, config.audio.sample_rate),
            Err(e) => r == Err::<Vec<u8>, AppError>(e),
        },
{
    match synthesized {
        Ok(samples) => encode_audio(samples.as_slice(), config.audio.sample_rate),
        Err(e) => Err(e),
    }
}

} // verus!

//! Phoneme encoding and audio encoding.

use vstd::prelude::*;
use crate::error::AppError;
use crate::text::{concat, texts_of, trim, trimmed};
use crate::tts::voice::PhonemeTable;

verus! {

/// The symbol whose identifiers open every utterance.
pub const START_SYMBOL: char = '^';

/// The symbol whose identifiers follow every phoneme.
pub const PAD_SYMBOL: char = '_';

/// The symbol whose identifiers close every utterance.
pub const END_SYMBOL: char = '$';

/// The identifiers of `symbol` in `table`, or nothing where the table
/// lacks the symbol.
pub open spec fn symbol_ids(table: Map<char, Seq<i64>>, symbol: char) -> Seq<i64> {
    if table.contains_key(symbol) {
        table[symbol]
    } else {
        Seq::empty()
    }
}

/// The identifiers that mark one end of an utterance: those of `symbol` in
/// `table`, or a single zero where the table lacks the symbol.
pub open spec fn boundary_ids(table: Map<char, Seq<i64>>, symbol: char) -> Seq<i64> {
    if table.contains_key(symbol) {
        table[symbol]
    } else {
        seq![0i64]
    }
}

/// The identifiers of the phonemes `phonemes`, without the two ends: for
/// each character its own identifiers, if it has any, and then the padding,
/// if there is any.
pub open spec fn body_ids(phonemes: Seq<char>, table: Map<char, Seq<i64>>) -> Seq<i64>
    decreases phonemes.len(),
{
    if phonemes.len() == 0 {
        Seq::empty()
    } else {
        body_ids(phonemes.drop_last(), table) + symbol_ids(table, phonemes.last()) + symbol_ids(
            table,
            PAD_SYMBOL,
        )
    }
}

/// The identifier sequence that the synthesis model is run on for the
/// phonemes `phonemes`.
pub open spec fn phoneme_ids(phonemes: Seq<char>, table: Map<char, Seq<i64>>) -> Seq<i64> {
    boundary_ids(table, START_SYMBOL) + body_ids(phonemes, table) + boundary_ids(
        table,
        END_SYMBOL,
    )
}

/// Appends `ids` to `out`.
fn extend_ids(out: &mut Vec<i64>, ids: &Vec<i64>)
    ensures
        final(out)@ == old(out)@ + ids@,
{
    let mut i: usize = 0;
    assert(out@ =~= old(out)@ + ids@.take(0));
    while i < ids.len()
        invariant
            i <= ids.len(),
            out@ == old(out)@ + ids@.take(i as int),
        decreases ids.len() - i,
    {
        assert((old(out)@ + ids@.take(i as int)).push(ids@[i as int]) =~= old(out)@ + ids@.take(
            i + 1,
        ));
        out.push(ids[i]);
        i += 1;
    }
    assert(ids@.take(ids@.len() as int) =~= ids@);
}

/// Appends the identifiers of `symbol` in `table` to `out`, if it has any.
fn extend_with_symbol(out: &mut Vec<i64>, table: &PhonemeTable, symbol: char)
    ensures
        final(out)@ == old(out)@ + symbol_ids(table@, symbol),
{
    match table.get(symbol) {
        Some(ids) => extend_ids(out, ids),
        None => {
            assert(out@ =~= old(out)@ + Seq::<i64>::empty());
        },
    }
}

/// Appends to `out` the identifiers that mark one end of an utterance.
fn extend_with_boundary(out: &mut Vec<i64>, table: &PhonemeTable, symbol: char)
    ensures
        final(out)@ == old(out)@ + boundary_ids(table@, symbol),
{
    match table.get(symbol) {
        Some(ids) => extend_ids(out, ids),
        None => {
            out.push(0);
            assert(out@ =~= old(out)@ + seq![0i64]);
        },
    }
}

/// Turns a phonetic transcription into the identifier sequence of a voice.
/// A character that the table lacks adds no identifiers of its own, only
/// the padding after it.
pub fn phonemes_to_ids(phonemes: &str, id_map: &PhonemeTable) -> (ids: Vec<i64>)
    ensures
        ids@ == phoneme_ids(phonemes@, id_map@),
{
    let mut ids: Vec<i64> = Vec::new();
    extend_with_boundary(&mut ids, id_map, START_SYMBOL);
    let ghost start = ids@;
    assert(ids@ =~= start + body_ids(phonemes@.take(0), id_map@));
    for c in it: phonemes.chars()
        invariant
            it.seq() == phonemes@,
            start == boundary_ids(id_map@, START_SYMBOL),
            ids@ == start + body_ids(phonemes@.take(it.index()), id_map@),
    {
        let ghost seen = phonemes@.take(it.index());
        let ghost next = phonemes@.take(it.index() + 1);
        assert(next.drop_last() =~= seen);
        assert(next.last() == c);
        extend_with_symbol(&mut ids, id_map, c);
        extend_with_symbol(&mut ids, id_map, PAD_SYMBOL);
        assert(ids@ =~= start + body_ids(next, id_map@));
    }
    assert(phonemes@.take(phonemes@.len() as int) =~= phonemes@);
    extend_with_boundary(&mut ids, id_map, END_SYMBOL);
    ids
}

/// With a table that has no symbol at all, every transcription is encoded
/// as the two default boundary identifiers: the result is never empty.
pub proof fn lemma_empty_table_gives_boundaries(phonemes: Seq<char>)
    ensures
        phoneme_ids(phonemes, Map::empty()) == seq![0i64, 0i64],
    decreases phonemes.len(),
{
    let table = Map::<char, Seq<i64>>::empty();
    lemma_empty_table_has_no_body(phonemes);
    assert(phoneme_ids(phonemes, table) =~= seq![0i64, 0i64]);
}

/// With a table that has no symbol at all, the phonemes add nothing.
pub proof fn lemma_empty_table_has_no_body(phonemes: Seq<char>)
    ensures
        body_ids(phonemes, Map::empty()) == Seq::<i64>::empty(),
    decreases phonemes.len(),
{
    if phonemes.len() > 0 {
        lemma_empty_table_has_no_body(phonemes.drop_last());
        assert(body_ids(phonemes, Map::empty()) =~= Seq::<i64>::empty());
    }
}

/// How a run of the phonemizer ended.
#[derive(Debug)]
pub enum EspeakRun {
    /// The program could not be started; the text is the system's message.
    NotStarted(String),
    /// The program ended with a failure; the text is what it wrote to its
    /// error stream.
    Failed(String),
    /// The program ended well; the text is what it wrote to its output.
    Finished(String),
}

/// The arguments with which the phonemizer is run to transcribe `text` in
/// the language `voice`: phonetic output, no sound, the language, the text.
pub open spec fn espeak_args_of(text: Seq<char>, voice: Seq<char>) -> Seq<Seq<char>> {
    seq!["--ipa"@, "-q"@, "-v"@, voice, text]
}

/// The arguments with which the phonemizer is run.
pub fn espeak_args(text: &str, voice: &str) -> (args: Vec<String>)
    ensures
        texts_of(args@) == espeak_args_of(text@, voice@),
{
    let mut args: Vec<String> = Vec::new();
    args.push("--ipa".to_owned());
    args.push("-q".to_owned());
    args.push("-v".to_owned());
    args.push(voice.to_owned());
    args.push(text.to_owned());
    assert(texts_of(args@) =~= espeak_args_of(text@, voice@));
    args
}

/// Whether the phonemizer has to be run for `text`: the empty text has the
/// empty transcription.
pub fn needs_phonemizer(text: &str) -> (needed: bool)
    ensures
        needed == (text@.len() > 0),
{
    !text.is_empty()
}

/// The transcription that a run of the phonemizer gave: its output without
/// the white space around it, or a synthesis failure that says how the run
/// went wrong.
pub fn phonemes_of_run(run: EspeakRun) -> (r: Result<String, AppError>)
    ensures
        match run {
            EspeakRun::Finished(output) => r matches Ok(phonemes) && phonemes@ == trimmed(
                output@,
            ),
            EspeakRun::Failed(errors) => r matches Err(AppError::TtsError(message)) && message@
                == "espeak-ng failed: "@ + errors@,
            EspeakRun::NotStarted(why) => r matches Err(AppError::TtsError(message)) && message@
                == "Failed to run espeak-ng (is it installed?): "@ + why@,
        },
{
    match run {
        EspeakRun::Finished(output) => Ok(trim(output.as_str())),
        EspeakRun::Failed(errors) => Err(
            AppError::TtsError(concat("espeak-ng failed: ", errors.as_str())),
        ),
        EspeakRun::NotStarted(why) => Err(
            AppError::TtsError(
                concat("Failed to run espeak-ng (is it installed?): ", why.as_str()),
            ),
        ),
    }
}

/// The number of channels of the audio that is written.
pub const CHANNELS: u16 = 1;

/// The number of bits of one sample of the audio that is written.
pub const BITS_PER_SAMPLE: u16 = 16;

/// The highest sample rate whose byte rate fits the 32-bit field of the
/// container.
pub const MAX_SAMPLE_RATE: u32 = 0x7fff_ffff;

/// The largest number of samples whose size, with the header, fits the
/// 32-bit fields of the container.
pub const MAX_SAMPLES: usize = 0x7fff_ffed;

/// The value `v` limited to the signed 16-bit range.
pub open spec fn clamp_i16(v: int) -> int {
    if v < -32768 {
        -32768
    } else if v > 32767 {
        32767
    } else {
        v
    }
}

/// The 16-bit samples of the scaled samples `samples`: each one limited to
/// the signed 16-bit range.
pub open spec fn quantized(samples: Seq<i32>) -> Seq<i16> {
    samples.map_values(|v: i32| clamp_i16(v as int) as i16)
}

/// The two bytes of `v`, lowest first.
pub open spec fn le_u16(v: int) -> Seq<u8> {
    seq![(v % 256) as u8, (v / 256 % 256) as u8]
}

/// The four bytes of `v`, lowest first.
pub open spec fn le_u32(v: int) -> Seq<u8> {
    seq![
        (v % 256) as u8,
        (v / 256 % 256) as u8,
        (v / 65536 % 256) as u8,
        (v / 16777216 % 256) as u8,
    ]
}

/// The two bytes of the sample `v` in two's complement, lowest first.
pub open spec fn le_i16(v: i16) -> Seq<u8> {
    le_u16(
        if v < 0 {
            v + 65536
        } else {
            v as int
        },
    )
}

/// The bytes of `samples`, one sample after the other.
pub open spec fn sample_bytes(samples: Seq<i16>) -> Seq<u8>
    decreases samples.len(),
{
    if samples.len() == 0 {
        Seq::empty()
    } else {
        sample_bytes(samples.drop_last()) + le_i16(samples.last())
    }
}

/// The 44 bytes that precede the samples of 16-bit integer audio in a RIFF
/// WAVE container: the RIFF chunk with the size of all that follows it, the
/// format chunk of plain PCM, and the head of the data chunk.
pub open spec fn wav_header(channels: u16, sample_rate: u32, data_len: int) -> Seq<u8> {
    seq![0x52u8, 0x49u8, 0x46u8, 0x46u8] + le_u32(data_len + 36)
        + seq![0x57u8, 0x41u8, 0x56u8, 0x45u8]
        + seq![0x66u8, 0x6du8, 0x74u8, 0x20u8] + le_u32(16) + le_u16(1) + le_u16(channels as int)
        + le_u32(sample_rate as int) + le_u32(sample_rate * 2 * channels) + le_u16(2 * channels)
        + le_u16(16) + seq![0x64u8, 0x61u8, 0x74u8, 0x61u8] + le_u32(data_len)
}

/// The RIFF WAVE container that holds `samples` as 16-bit integer audio of
/// `channels` channels at `sample_rate` samples per second.
pub open spec fn wav_image(channels: u16, sample_rate: u32, samples: Seq<i16>) -> Seq<u8> {
    wav_header(channels, sample_rate, 2 * samples.len() as int) + sample_bytes(samples)
}

/// The step of writing a container at which the writer failed.
#[derive(Debug, Clone, Copy, PartialEq, Eq)]
pub enum WavStage {
    /// The writer could not be set up.
    Create,
    /// A sample could not be written.
    Write,
    /// The sizes in the header could not be filled in.
    Finalize,
}

/// What begins the message of a failure at the step `stage`.
pub open spec fn wav_failure_heading(stage: WavStage) -> Seq<char> {
    match stage {
        WavStage::Create => "Failed to create WAV writer: "@,
        WavStage::Write => "Failed to write sample: "@,
        WavStage::Finalize => "Failed to finalize WAV: "@,
    }
}

/// A failure of `hound` to write audio.
#[verifier::external_type_specification]
#[verifier::external_body]
pub struct ExHoundError(hound::Error);

/// Writes `samples` with `hound`: `WavWriter::new` on a cursor over a
/// vector in memory, with an integer format of the given channels, rate and
/// bits, then `write_sample` for each sample, then `finalize`; a failure
/// comes back with the step at which it arose. For up to two channels of 16
/// bits `hound` writes a plain PCM header of 44 bytes, then each sample as
/// two bytes, lowest first, and on `finalize` fills in the two sizes. The
/// bounds keep its 32-bit byte rate and byte counts from overflowing and its
/// block alignment from a division by zero. Within them `hound` refuses
/// nothing but a number of samples that is no multiple of the number of
/// channels, and the vector in memory takes every write.
#[verifier::external_body]
fn write_pcm16(samples: &Vec<i16>, channels: u16, sample_rate: u32, bits_per_sample: u16) -> (r:
    Result<Vec<u8>, (WavStage, hound::Error)>)
    requires
        1 <= channels <= 2,
        bits_per_sample == 16,
        1 <= sample_rate,
        sample_rate * 2 * channels <= u32::MAX,
        2 * samples@.len() + 36 <= u32::MAX,
    ensures
        r matches Ok(bytes) ==> bytes@ == wav_image(channels, sample_rate, samples@),
        (samples@.len() as int) % (channels as int) == 0 ==> r is Ok,
{
    let sample_format = hound::SampleFormat::Int;
    let spec = hound::WavSpec { channels, sample_rate, bits_per_sample, sample_format };
    let mut buffer = Vec::new();
    let cursor = std::io::Cursor::new(&mut buffer);
    let mut writer = hound::WavWriter::new(cursor, spec).map_err(|e| (WavStage::Create, e))?;
    for sample in samples.iter() {
        writer.write_sample(*sample).map_err(|e| (WavStage::Write, e))?;
    }
    writer.finalize().map_err(|e| (WavStage::Finalize, e))?;
    Ok(buffer)
}

/// The message of a failure of `hound`, as its `Display` gives it. For a
/// failure of the underlying writer this is the system's text, so nothing is
/// said of it.
#[verifier::external_body]
fn hound_error_text(error: &hound::Error) -> (text: String) {
    format!("{}", error)
}

/// Limits a scaled sample to the signed 16-bit range: values outside the
/// range take the nearest bound, they never wrap.
pub fn clamp_sample(v: i32) -> (r: i16)
    ensures
        r as int == clamp_i16(v as int),
{
    if v < -32768 {
        -32768i16
    } else if v > 32767 {
        32767i16
    } else {
        v as i16
    }
}

/// The 16-bit samples of scaled samples.
pub fn quantize(samples: &[i32]) -> (pcm: Vec<i16>)
    ensures
        pcm@ == quantized(samples@),
{
    let mut pcm: Vec<i16> = Vec::new();
    let mut i: usize = 0;
    while i < samples.len()
        invariant
            i <= samples.len(),
            pcm@ == quantized(samples@.take(i as int)),
        decreases samples.len() - i,
    {
        assert(quantized(samples@.take(i as int)).push(clamp_i16(samples@[i as int] as int) as i16)
            =~= quantized(samples@.take(i + 1)));
        pcm.push(clamp_sample(samples[i]));
        i += 1;
    }
    assert(samples@.take(samples@.len() as int) =~= samples@);
    pcm
}

/// The result of encoding, given what the writer gave: its bytes, or a
/// synthesis failure whose message names the step that failed and ends in
/// the writer's own message.
pub fn wav_outcome(written: Result<Vec<u8>, (WavStage, String)>) -> (r: Result<Vec<u8>, AppError>)
    ensures
        match written {
            Ok(bytes) => r == Ok::<Vec<u8>, AppError>(bytes),
            Err((stage, text)) => {
                &&& r matches Err(AppError::TtsError(message))
                &&& message@ == wav_failure_heading(stage) + text@
            },
        },
{
    match written {
        Ok(bytes) => Ok(bytes),
        Err((stage, text)) => {
            let heading = match stage {
                WavStage::Create => "Failed to create WAV writer: ",
                WavStage::Write => "Failed to write sample: ",
                WavStage::Finalize => "Failed to finalize WAV: ",
            };
            Err(AppError::TtsError(concat(heading, text.as_str())))
        },
    }
}

/// Packs scaled samples into a RIFF WAVE container of one channel of 16-bit
/// integer audio. A scaled sample is a sample in units of 1/32767 of full
/// scale; each is limited to the 16-bit range before it is written. The
/// bounds are those of the container, whose sizes and rates are 32-bit
/// fields. Within them every audio has its container: no samples give a
/// header and an empty data chunk.
pub fn samples_to_wav(samples: &[i32], sample_rate: u32) -> (r: Result<Vec<u8>, AppError>)
    requires
        1 <= sample_rate <= MAX_SAMPLE_RATE,
        samples@.len() <= MAX_SAMPLES,
    ensures
        r matches Ok(bytes) && bytes@ == wav_image(CHANNELS, sample_rate, quantized(samples@)),
{
    let pcm = quantize(samples);
    let written = match write_pcm16(&pcm, CHANNELS, sample_rate, BITS_PER_SAMPLE) {
        Ok(bytes) => Ok(bytes),
        Err((stage, error)) => Err((stage, hound_error_text(&error))),
    };
    wav_outcome(written)
}

/// Whether audio of `count` samples at `sample_rate` samples per second
/// fits a container, whose rates and sizes are 32-bit fields.
pub open spec fn fits_container(count: nat, sample_rate: u32) -> bool {
    1 <= sample_rate <= MAX_SAMPLE_RATE && count <= MAX_SAMPLES
}

/// The message of the failure to encode audio of `count` samples at
/// `sample_rate` samples per second that does not fit a container: a rate
/// out of range stops the writer from being set up, too many samples stop
/// the samples from being written.
pub open spec fn misfit_message(count: nat, sample_rate: u32) -> Seq<char> {
    if !(1 <= sample_rate <= MAX_SAMPLE_RATE) {
        wav_failure_heading(WavStage::Create) + "sample rate out of range"@
    } else {
        wav_failure_heading(WavStage::Write) + "too many samples"@
    }
}

/// Whether `r` is the result of encoding the scaled samples `samples` at
/// `sample_rate` samples per second: the container that holds them where
/// they fit one, and the failure that says why they do not otherwise.
pub open spec fn is_encoding_of(r: Result<Vec<u8>, AppError>, samples: Seq<i32>, sample_rate: u32)
    -> bool {
    if fits_container(samples.len(), sample_rate) {
        r matches Ok(bytes) && bytes@ == wav_image(CHANNELS, sample_rate, quantized(samples))
    } else {
        r matches Err(AppError::TtsError(message)) && message@ == misfit_message(
            samples.len(),
            sample_rate,
        )
    }
}

/// Packs scaled samples into a container like `samples_to_wav`, for any
/// rate and any number of samples: audio that does not fit a container is
/// not handed to the writer but reported as a synthesis failure.
pub fn encode_audio(samples: &[i32], sample_rate: u32) -> (r: Result<Vec<u8>, AppError>)
    ensures
        is_encoding_of(r, samples@, sample_rate),
{
    if sample_rate < 1 || sample_rate > MAX_SAMPLE_RATE {
        wav_outcome(Err((WavStage::Create, "sample rate out of range".to_owned())))
    } else if samples.len() > MAX_SAMPLES {
        wav_outcome(Err((WavStage::Write, "too many samples".to_owned())))
    } else {
        samples_to_wav(samples, sample_rate)
    }
}

/// Audio without samples is the header alone: 44 bytes that start with the
/// letters `RIFF`, with a data chunk of length zero, whatever the rate.
pub proof fn lemma_empty_audio_is_header_only(sample_rate: u32)
    ensures
        wav_image(CHANNELS, sample_rate, quantized(Seq::empty())) == wav_header(
            CHANNELS,
            sample_rate,
            0,
        ),
        wav_header(CHANNELS, sample_rate, 0).len() == 44,
        wav_header(CHANNELS, sample_rate, 0).subrange(0, 4) == seq![0x52u8, 0x49u8, 0x46u8, 0x46u8],
        wav_header(CHANNELS, sample_rate, 0).subrange(4, 8) == seq![36u8, 0u8, 0u8, 0u8],
        wav_header(CHANNELS, sample_rate, 0).subrange(8, 12) == seq![
            0x57u8,
            0x41u8,
            0x56u8,
            0x45u8,
        ],
        wav_header(CHANNELS, sample_rate, 0).subrange(40, 44) == seq![0u8, 0u8, 0u8, 0u8],
{
    let header = wav_header(CHANNELS, sample_rate, 0);
    assert(quantized(Seq::empty()) =~= Seq::<i16>::empty());
    assert(wav_image(CHANNELS, sample_rate, Seq::empty()) =~= header);
    assert(header.len() == 44);
    assert(header.subrange(0, 4) =~= seq![0x52u8, 0x49u8, 0x46u8, 0x46u8]);
    assert(header.subrange(4, 8) =~= seq![36u8, 0u8, 0u8, 0u8]);
    assert(header.subrange(8, 12) =~= seq![0x57u8, 0x41u8, 0x56u8, 0x45u8]);
    assert(header.subrange(40, 44) =~= seq![0u8, 0u8, 0u8, 0u8]);
}

/// A sample beyond full scale is limited to the nearest bound of the 16-bit
/// range, and a sample within the range stays as it is.
pub proof fn lemma_quantized_is_clamped(samples: Seq<i32>, i: int)
    requires
        0 <= i < samples.len(),
    ensures
        samples[i] > 32767 ==> quantized(samples)[i] == 32767,
        samples[i] < -32768 ==> quantized(samples)[i] == -32768,
        -32768 <= samples[i] <= 32767 ==> quantized(samples)[i] == samples[i],
{
}

/// The data of `n` samples has `2 * n` bytes.
pub proof fn lemma_sample_bytes_len(samples: Seq<i16>)
    ensures
        sample_bytes(samples).len() == 2 * samples.len(),
    decreases samples.len(),
{
    if samples.len() > 0 {
        lemma_sample_bytes_len(samples.drop_last());
    }
}

/// Every sample takes two bytes of the data, in the order of the samples.
pub proof fn lemma_sample_bytes_at(samples: Seq<i16>, i: int)
    requires
        0 <= i < samples.len(),
    ensures
        sample_bytes(samples).subrange(2 * i, 2 * i + 2) == le_i16(samples[i]),
    decreases samples.len(),
{
    let front = samples.drop_last();
    lemma_sample_bytes_len(front);
    lemma_sample_bytes_len(samples);
    if i < front.len() {
        lemma_sample_bytes_at(front, i);
        assert(front[i] == samples[i]);
        assert(sample_bytes(samples).subrange(2 * i, 2 * i + 2) =~= sample_bytes(front).subrange(
            2 * i,
            2 * i + 2,
        ));
    } else {
        assert(sample_bytes(samples).subrange(2 * i, 2 * i + 2) =~= le_i16(samples.last()));
    }
}

/// The header has 44 bytes.
pub proof fn lemma_header_len(channels: u16, sample_rate: u32, data_len: int)
    ensures
        wav_header(channels, sample_rate, data_len).len() == 44,
{
}

/// The bytes of the two bounds of the 16-bit range.
pub proof fn lemma_bound_bytes()
    ensures
        le_i16(32767i16) == seq![0xffu8, 0x7fu8],
        le_i16(-32768i16) == seq![0x00u8, 0x80u8],
{
    assert(le_i16(32767i16) =~= seq![0xffu8, 0x7fu8]);
    assert(le_i16(-32768i16) =~= seq![0x00u8, 0x80u8]);
}

/// In the container of any audio, the two bytes of every sample follow the
/// 44 bytes of the header in the order of the samples, and they hold the
/// sample limited to the 16-bit range: the highest value for a sample above
/// the range and the lowest for one below it, never a value of the other
/// sign.
pub proof fn lemma_encoded_sample_is_clamped(sample_rate: u32, samples: Seq<i32>, i: int)
    requires
        0 <= i < samples.len(),
    ensures
        wav_image(CHANNELS, sample_rate, quantized(samples)).len() == 44 + 2 * samples.len(),
        wav_image(CHANNELS, sample_rate, quantized(samples)).subrange(44 + 2 * i, 46 + 2 * i)
            == le_i16(clamp_i16(samples[i] as int) as i16),
        samples[i] > 32767 ==> le_i16(clamp_i16(samples[i] as int) as i16) == seq![0xffu8, 0x7fu8],
        samples[i] < -32768 ==> le_i16(clamp_i16(samples[i] as int) as i16) == seq![
            0x00u8,
            0x80u8,
        ],
{
    let pcm = quantized(samples);
    let header = wav_header(CHANNELS, sample_rate, 2 * pcm.len() as int);
    let data = sample_bytes(pcm);
    lemma_header_len(CHANNELS, sample_rate, 2 * pcm.len() as int);
    lemma_sample_bytes_len(pcm);
    lemma_sample_bytes_at(pcm, i);
    lemma_bound_bytes();
    assert((header + data).subrange(44 + 2 * i, 46 + 2 * i) =~= data.subrange(2 * i, 2 * i + 2));
}

} // verus!

//! Speech synthesis support: phoneme encoding, audio encoding, voices and
//! the engine cache.

pub mod cache;
pub mod piper;
pub mod speak;
pub mod voice;

use vstd::prelude::*;
use crate::dsl::parser::{match_word, occurs_at};
use crate::error::AppError;
use crate::text::{
    char_to_uppercase, chars_of, push_chars, string_of, texts_of, uppercase_of_char,
};
use crate::tts::voice::{language_of, Voice, VoiceInfo};

verus! {

/// The first position at or after `i` of `s` that holds a hyphen, or the
/// length of `s` where none follows.
pub open spec fn segment_end(s: Seq<char>, i: int) -> int
    decreases s.len() - i,
{
    if 0 <= i < s.len() && s[i] != '-' {
        segment_end(s, i + 1)
    } else {
        i
    }
}

/// The display name of the voice `id`. An identifier has the form
/// `<language>-<name>-<quality>`: the display name is its second segment
/// with the first character in uppercase. An identifier without a hyphen,
/// or with an empty second segment, is its own display name.
pub open spec fn voice_name(id: Seq<char>) -> Seq<char> {
    let first = segment_end(id, 0);
    let second = segment_end(id, first + 1);
    if first >= id.len() || second == first + 1 {
        id
    } else {
        uppercase_of_char(id[first + 1]) + id.subrange(first + 2, second)
    }
}

/// The first position at or after `from` of `text` that holds a hyphen.
fn find_segment_end(text: &Vec<char>, from: usize) -> (end: usize)
    requires
        from <= text.len(),
    ensures
        end == segment_end(text@, from as int),
        from <= end <= text.len(),
{
    let mut i: usize = from;
    while i < text.len() && text[i] != '-'
        invariant
            from <= i <= text.len(),
            segment_end(text@, from as int) == segment_end(text@, i as int),
        decreases text.len() - i,
    {
        i += 1;
    }
    i
}

/// The display name of a voice, from its identifier: `en_GB-alba-medium`
/// is shown as `Alba`.
pub fn parse_voice_name(id: &str) -> (name: String)
    ensures
        name@ == voice_name(id@),
{
    let chars = chars_of(id);
    let first = find_segment_end(&chars, 0);
    if first >= chars.len() {
        return id.to_owned();
    }
    let second = find_segment_end(&chars, first + 1);
    if second == first + 1 {
        return id.to_owned();
    }
    let upper = char_to_uppercase(chars[first + 1]);
    let mut name = String::new();
    push_chars(&mut name, &upper, 0, upper.len());
    push_chars(&mut name, &chars, first + 2, second);
    assert(upper@.subrange(0, upper@.len() as int) =~= upper@);
    name
}

/// What the name of a model file ends in.
pub open spec fn model_suffix() -> Seq<char> {
    ".onnx"@
}

/// The identifier of the voice whose model file is named `file_name`: the
/// name without its extension, where the extension is `onnx` and something
/// stands before it.
pub open spec fn voice_id_of(file_name: Seq<char>) -> Option<Seq<char>> {
    let stem = file_name.len() - model_suffix().len();
    if stem > 0 && occurs_at(file_name, stem, model_suffix()) {
        Some(file_name.subrange(0, stem))
    } else {
        None
    }
}

/// The identifier of the voice whose model file has the given name, if the
/// name is that of a model file.
pub fn voice_id_of_file(file_name: &str) -> (id: Option<String>)
    ensures
        match id {
            Some(id) => voice_id_of(file_name@) == Some(id@),
            None => voice_id_of(file_name@) is None,
        },
{
    proof {
        reveal_strlit(".onnx");
    }
    let chars = chars_of(file_name);
    if chars.len() <= 5 {
        return None;
    }
    let stem = chars.len() - 5;
    match match_word(&chars, stem, ".onnx") {
        Some(_) => Some(string_of(&chars, 0, stem)),
        None => None,
    }
}

/// The identifiers of the voices among the files named `file_names`, in
/// the order of the files.
pub open spec fn voice_ids_of(file_names: Seq<String>) -> Seq<Seq<char>>
    decreases file_names.len(),
{
    if file_names.len() == 0 {
        Seq::empty()
    } else {
        match voice_id_of(file_names.last()@) {
            Some(id) => voice_ids_of(file_names.drop_last()).push(id),
            None => voice_ids_of(file_names.drop_last()),
        }
    }
}

/// Picks the voices out of the names of the files of a directory: every
/// model file stands for one voice.
pub fn voice_ids(file_names: &Vec<String>) -> (ids: Vec<String>)
    ensures
        texts_of(ids@) == voice_ids_of(file_names@),
{
    let mut ids: Vec<String> = Vec::new();
    let mut i: usize = 0;
    assert(file_names@.take(0) =~= Seq::<String>::empty());
    assert(texts_of(ids@) =~= Seq::<Seq<char>>::empty());
    while i < file_names.len()
        invariant
            i <= file_names.len(),
            texts_of(ids@) == voice_ids_of(file_names@.take(i as int)),
        decreases file_names.len() - i,
    {
        let ghost before = texts_of(ids@);
        assert(file_names@.take(i + 1).drop_last() =~= file_names@.take(i as int));
        assert(file_names@.take(i + 1).last() == file_names@[i as int]);
        match voice_id_of_file(file_names[i].as_str()) {
            Some(id) => {
                let ghost text = id@;
                ids.push(id);
                assert(texts_of(ids@) =~= before.push(text));
            },
            None => {},
        }
        i += 1;
    }
    assert(file_names@.take(file_names@.len() as int) =~= file_names@);
    ids
}

/// The mathematical value of a `VoiceInfo`.
pub struct VoiceInfoView {
    pub id: Seq<char>,
    pub name: Seq<char>,
    pub language: Seq<char>,
}

impl View for VoiceInfo {
    type V = VoiceInfoView;

    open spec fn view(&self) -> VoiceInfoView {
        VoiceInfoView { id: self.id@, name: self.name@, language: self.language@ }
    }
}

/// What is shown of the voice `voice`: its identifier, the display name
/// that the identifier stands for, and its language.
pub open spec fn info_of(voice: Voice) -> VoiceInfoView {
    VoiceInfoView {
        id: voice.id@,
        name: voice_name(voice.id@),
        language: language_of(voice.config),
    }
}

/// What is shown of the voices among `loaded`, in order: an entry that
/// failed to load is left out.
pub open spec fn infos_of(loaded: Seq<Result<Voice, AppError>>) -> Seq<VoiceInfoView>
    decreases loaded.len(),
{
    if loaded.len() == 0 {
        Seq::empty()
    } else {
        match loaded.last() {
            Ok(voice) => infos_of(loaded.drop_last()).push(info_of(voice)),
            Err(_) => infos_of(loaded.drop_last()),
        }
    }
}

/// The values of a sequence of voice descriptions.
pub open spec fn info_views(infos: Seq<VoiceInfo>) -> Seq<VoiceInfoView> {
    infos.map_values(|info: VoiceInfo| info@)
}

/// Describes a voice for a listing.
pub fn voice_info(voice: &Voice) -> (info: VoiceInfo)
    ensures
        info@ == info_of(*voice),
{
    VoiceInfo {
        id: voice.id.clone(),
        name: parse_voice_name(voice.id.as_str()),
        language: voice.config.language(),
    }
}

/// Lists the voices, given what loading each candidate gave. A candidate
/// that could not be loaded is not listed, and is no failure of the listing.
pub fn list_voices(loaded: &Vec<Result<Voice, AppError>>) -> (voices: Vec<VoiceInfo>)
    ensures
        info_views(voices@) == infos_of(loaded@),
{
    let mut voices: Vec<VoiceInfo> = Vec::new();
    let mut i: usize = 0;
    assert(loaded@.take(0) =~= Seq::<Result<Voice, AppError>>::empty());
    assert(info_views(voices@) =~= Seq::<VoiceInfoView>::empty());
    while i < loaded.len()
        invariant
            i <= loaded.len(),
            info_views(voices@) == infos_of(loaded@.take(i as int)),
        decreases loaded.len() - i,
    {
        let ghost before = info_views(voices@);
        assert(loaded@.take(i + 1).drop_last() =~= loaded@.take(i as int));
        assert(loaded@.take(i + 1).last() == loaded@[i as int]);
        match &loaded[i] {
            Ok(voice) => {
                let info = voice_info(voice);
                let ghost value = info@;
                voices.push(info);
                assert(info_views(voices@) =~= before.push(value));
            },
            Err(_) => {},
        }
        i += 1;
    }
    assert(loaded@.take(loaded@.len() as int) =~= loaded@);
    voices
}

} // verus!

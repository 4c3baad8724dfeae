//! Tokenizer of the markup language.
//!
//! The input is scanned from left to right. Wherever a directive starts, it
//! becomes a token of its own; the characters between directives are
//! gathered into text tokens. Brackets that hold no directive are ordinary
//! text.

use vstd::prelude::*;
use crate::text::{chars_of, string_of};

verus! {

/// The duration, in milliseconds, of a timed pause whose digits do not
/// denote a 32-bit number.
pub const FALLBACK_PAUSE_MS: u32 = 200;

/// One element of tokenized markup.
#[derive(Debug, Clone, PartialEq)]
pub enum Token {
    Text(String),
    Pause(Option<u32>),
    SlowStart,
    SlowEnd,
    FastStart,
    FastEnd,
    EmphasisStart,
    EmphasisEnd,
    SpellStart,
    SpellEnd,
    WhisperStart,
    WhisperEnd,
}

/// The mathematical value of a `Token`: the same variants, with the text
/// of a text token as a sequence of characters.
pub enum TokenView {
    Text(Seq<char>),
    Pause(Option<u32>),
    SlowStart,
    SlowEnd,
    FastStart,
    FastEnd,
    EmphasisStart,
    EmphasisEnd,
    SpellStart,
    SpellEnd,
    WhisperStart,
    WhisperEnd,
}

impl View for Token {
    type V = TokenView;

    open spec fn view(&self) -> TokenView {
        match self {
            Token::Text(s) => TokenView::Text(s@),
            Token::Pause(ms) => TokenView::Pause(*ms),
            Token::SlowStart => TokenView::SlowStart,
            Token::SlowEnd => TokenView::SlowEnd,
            Token::FastStart => TokenView::FastStart,
            Token::FastEnd => TokenView::FastEnd,
            Token::EmphasisStart => TokenView::EmphasisStart,
            Token::EmphasisEnd => TokenView::EmphasisEnd,
            Token::SpellStart => TokenView::SpellStart,
            Token::SpellEnd => TokenView::SpellEnd,
            Token::WhisperStart => TokenView::WhisperStart,
            Token::WhisperEnd => TokenView::WhisperEnd,
        }
    }
}

/// The values of a sequence of tokens.
pub open spec fn token_views(tokens: Seq<Token>) -> Seq<TokenView> {
    tokens.map_values(|t: Token| t@)
}

/// Whether some regular expression `pattern` compiles and has a match in
/// `haystack`, as the `regex` crate decides it.
pub uninterp spec fn regex_matches(pattern: Seq<char>, haystack: Seq<char>) -> bool;

/// Compiles `pattern` with `regex::Regex::new` and searches `haystack` with
/// `Regex::is_match`. Both depend on their arguments alone, so the answer is
/// named `regex_matches`; a pattern that does not compile matches nothing.
#[verifier::external_body]
fn regex_is_match(pattern: &str, haystack: &str) -> (b: bool)
    ensures
        b == regex_matches(pattern@, haystack@),
{
    regex::Regex::new(pattern).map_or(false, |re| re.is_match(haystack))
}

/// Whether `c` counts as a digit inside a timed pause. Of the ASCII
/// characters these are `0` to `9`; of all others, those of the class `\d` of
/// regular expressions, the decimal digits of Unicode.
pub open spec fn is_digit(c: char) -> bool {
    if is_ascii_char(c) {
        is_ascii_digit(c)
    } else {
        regex_matches(r"^\d$"@, seq![c])
    }
}

/// Whether `c` is an ASCII character.
pub open spec fn is_ascii_char(c: char) -> bool {
    (c as u32) < 0x80
}

/// Whether `c` is one of the characters `0` to `9`.
pub open spec fn is_ascii_digit(c: char) -> bool {
    '0' <= c && c <= '9'
}

/// Whether the non-empty `word` stands in `s` at position `i`.
pub open spec fn occurs_at(s: Seq<char>, i: int, word: Seq<char>) -> bool {
    &&& word.len() > 0
    &&& 0 <= i
    &&& i + word.len() <= s.len()
    &&& s.subrange(i, i + word.len()) == word
}

/// The number of digits that stand in `s` from position `i` on, without a gap.
pub open spec fn digit_run(s: Seq<char>, i: int) -> nat
    decreases s.len() - i,
{
    if 0 <= i < s.len() && is_digit(s[i]) {
        1 + digit_run(s, i + 1)
    } else {
        0
    }
}

/// The number that the ASCII digits `digits` denote in base ten.
pub open spec fn decimal_value(digits: Seq<char>) -> nat
    decreases digits.len(),
{
    if digits.len() == 0 {
        0
    } else {
        decimal_value(digits.drop_last()) * 10 + (digits.last() as nat - '0' as nat) as nat
    }
}

/// Whether every character of `digits` is an ASCII digit.
pub open spec fn all_ascii_digits(digits: Seq<char>) -> bool {
    forall|k: int| 0 <= k < digits.len() ==> is_ascii_digit(#[trigger] digits[k])
}

/// The duration that the digits of a timed pause stand for: their value in
/// base ten where they are ASCII digits that denote a 32-bit number, the
/// fallback duration otherwise.
pub open spec fn pause_millis(digits: Seq<char>) -> u32 {
    if all_ascii_digits(digits) && decimal_value(digits) <= u32::MAX {
        decimal_value(digits) as u32
    } else {
        FALLBACK_PAUSE_MS
    }
}

/// The timed pause `[pause:<digits>]` that starts at position `i` of `s`,
/// with its length, if there is one.
pub open spec fn timed_pause_at(s: Seq<char>, i: int) -> Option<(TokenView, int)> {
    let from = i + "[pause:"@.len();
    let n = digit_run(s, from);
    if occurs_at(s, i, "[pause:"@) && n > 0 && from + n < s.len() && s[from + n] == ']' {
        Some((TokenView::Pause(Some(pause_millis(s.subrange(from, from + n)))), from + n + 1 - i))
    } else {
        None
    }
}

/// The directive that starts at position `i` of `s`, with its length in
/// characters, if one starts there.
pub open spec fn tag_at(s: Seq<char>, i: int) -> Option<(TokenView, int)> {
    if occurs_at(s, i, "[pause]"@) {
        Some((TokenView::Pause(None), "[pause]"@.len() as int))
    } else if occurs_at(s, i, "[slow]"@) {
        Some((TokenView::SlowStart, "[slow]"@.len() as int))
    } else if occurs_at(s, i, "[/slow]"@) {
        Some((TokenView::SlowEnd, "[/slow]"@.len() as int))
    } else if occurs_at(s, i, "[fast]"@) {
        Some((TokenView::FastStart, "[fast]"@.len() as int))
    } else if occurs_at(s, i, "[/fast]"@) {
        Some((TokenView::FastEnd, "[/fast]"@.len() as int))
    } else if occurs_at(s, i, "[emphasis]"@) {
        Some((TokenView::EmphasisStart, "[emphasis]"@.len() as int))
    } else if occurs_at(s, i, "[/emphasis]"@) {
        Some((TokenView::EmphasisEnd, "[/emphasis]"@.len() as int))
    } else if occurs_at(s, i, "[spell]"@) {
        Some((TokenView::SpellStart, "[spell]"@.len() as int))
    } else if occurs_at(s, i, "[/spell]"@) {
        Some((TokenView::SpellEnd, "[/spell]"@.len() as int))
    } else if occurs_at(s, i, "[whisper]"@) {
        Some((TokenView::WhisperStart, "[whisper]"@.len() as int))
    } else if occurs_at(s, i, "[/whisper]"@) {
        Some((TokenView::WhisperEnd, "[/whisper]"@.len() as int))
    } else {
        timed_pause_at(s, i)
    }
}

/// The text token for the characters `s[from..to]`, or nothing where the
/// range is empty.
pub open spec fn text_run(s: Seq<char>, from: int, to: int) -> Seq<TokenView> {
    if from < to {
        seq![TokenView::Text(s.subrange(from, to))]
    } else {
        Seq::empty()
    }
}

/// The tokens of `s[start..]`, given that no directive starts at any
/// position from `start` up to `i`.
pub open spec fn tokens_from(s: Seq<char>, start: int, i: int) -> Seq<TokenView>
    decreases s.len() - i,
{
    if i >= s.len() {
        text_run(s, start, s.len() as int)
    } else {
        match tag_at(s, i) {
            Some((token, n)) => text_run(s, start, i).push(token) + tokens_from(s, i + n, i + n),
            None => tokens_from(s, start, i + 1),
        }
    }
}

/// The tokens of the markup `s`.
pub open spec fn tokenize(s: Seq<char>) -> Seq<TokenView> {
    tokens_from(s, 0, 0)
}

/// Whether a directive starts anywhere in `s`.
pub open spec fn has_directive(s: Seq<char>) -> bool {
    exists|i: int| 0 <= i < s.len() && (#[trigger] tag_at(s, i)) is Some
}

/// Tells whether `c` counts as a digit inside a timed pause.
pub fn digit(c: char) -> (b: bool)
    ensures
        b == is_digit(c),
{
    if (c as u32) < 0x80 {
        c >= '0' && c <= '9'
    } else {
        let mut one = String::new();
        one.push(c);
        assert(one@ =~= seq![c]);
        regex_is_match(r"^\d$", one.as_str())
    }
}

/// Tests whether `word` stands in `text` at position `at`; where it does,
/// the result is its length in characters.
pub fn match_word(text: &Vec<char>, at: usize, word: &str) -> (r: Option<usize>)
    requires
        at <= text.len(),
    ensures
        match r {
            Some(n) => occurs_at(text@, at as int, word@) && n == word@.len(),
            None => !occurs_at(text@, at as int, word@),
        },
{
    let mut i: usize = at;
    for c in it: word.chars()
        invariant
            it.seq() == word@,
            at <= i <= text.len(),
            i == at + it.index(),
            text@.subrange(at as int, i as int) == word@.take(it.index()),
    {
        if i >= text.len() || text[i] != c {
            proof {
                if occurs_at(text@, at as int, word@) {
                    assert(text@.subrange(at as int, at + word@.len())[it.index()]
                        == word@[it.index()]);
                }
            }
            return None;
        }
        assert(text@.subrange(at as int, i as int).push(text@[i as int])
            =~= text@.subrange(at as int, i + 1));
        assert(word@.take(it.index()).push(c) =~= word@.take(it.index() + 1));
        i += 1;
    }
    assert(word@.take(word@.len() as int) =~= word@);
    if i > at {
        Some(i - at)
    } else {
        None
    }
}

/// ASCII digits denote no smaller a number than any of their prefixes.
pub proof fn lemma_decimal_value_grows(digits: Seq<char>, k: int)
    requires
        0 <= k <= digits.len(),
        all_ascii_digits(digits),
    ensures
        decimal_value(digits.take(k)) <= decimal_value(digits),
    decreases digits.len() - k,
{
    if k < digits.len() {
        let next = digits.take(k + 1);
        assert(next.drop_last() =~= digits.take(k));
        assert(is_ascii_digit(digits[k]));
        assert(next.last() == digits[k]);
        lemma_decimal_value_grows(digits, k + 1);
    } else {
        assert(digits.take(k) =~= digits);
    }
}

/// The duration that the digits `text[from..to]` of a timed pause stand for.
pub fn pause_duration(text: &Vec<char>, from: usize, to: usize) -> (ms: u32)
    requires
        from <= to <= text.len(),
    ensures
        ms == pause_millis(text@.subrange(from as int, to as int)),
{
    let ghost digits = text@.subrange(from as int, to as int);
    let mut value: u64 = 0;
    let mut i: usize = from;
    while i < to
        invariant
            from <= i <= to <= text.len(),
            digits == text@.subrange(from as int, to as int),
            all_ascii_digits(digits.take(i - from)),
            value == decimal_value(digits.take(i - from)),
            value <= u32::MAX,
        decreases to - i,
    {
        let c = text[i];
        let ghost seen = digits.take(i - from);
        let ghost next = digits.take(i + 1 - from);
        assert(next.drop_last() =~= seen);
        assert(next.last() == c);
        if !(c >= '0' && c <= '9') {
            assert(!is_ascii_digit(digits[i - from]));
            return FALLBACK_PAUSE_MS;
        }
        assert forall|k: int| 0 <= k < next.len() implies is_ascii_digit(#[trigger] next[k]) by {
            if k < seen.len() {
                assert(next[k] == seen[k]);
            }
        }
        let grown: u64 = value * 10 + ((c as u32) - ('0' as u32)) as u64;
        if grown > 0xffff_ffff {
            proof {
                if all_ascii_digits(digits) {
                    lemma_decimal_value_grows(digits, i + 1 - from);
                }
            }
            return FALLBACK_PAUSE_MS;
        }
        value = grown;
        i += 1;
    }
    assert(digits.take(to - from) =~= digits);
    value as u32
}

/// The first position at or after `from` of `text` that holds no digit.
pub fn skip_digits(text: &Vec<char>, from: usize) -> (end: usize)
    requires
        from <= text.len(),
    ensures
        end == from + digit_run(text@, from as int),
        end <= text.len(),
{
    let mut j: usize = from;
    while j < text.len() && digit(text[j])
        invariant
            from <= j <= text.len(),
            digit_run(text@, from as int) == (j - from) + digit_run(text@, j as int),
        decreases text.len() - j,
    {
        j += 1;
    }
    j
}

/// Recognizes the timed pause that starts at position `at` of `text`.
pub fn parse_timed_pause(text: &Vec<char>, at: usize) -> (r: Option<(Token, usize)>)
    requires
        at <= text.len(),
    ensures
        match r {
            Some((token, n)) => timed_pause_at(text@, at as int) == Some((token@, n as int)),
            None => timed_pause_at(text@, at as int) is None,
        },
{
    match match_word(text, at, "[pause:") {
        None => None,
        Some(opening) => {
            let from = at + opening;
            let end = skip_digits(text, from);
            if end > from && end < text.len() && text[end] == ']' {
                let ms = pause_duration(text, from, end);
                Some((Token::Pause(Some(ms)), end + 1 - at))
            } else {
                None
            }
        },
    }
}

/// Recognizes the directive that starts at position `at` of `text`: the
/// token it stands for and its length in characters.
pub fn parse_tag(text: &Vec<char>, at: usize) -> (r: Option<(Token, usize)>)
    requires
        at <= text.len(),
    ensures
        match r {
            Some((token, n)) => tag_at(text@, at as int) == Some((token@, n as int)),
            None => tag_at(text@, at as int) is None,
        },
{
    if let Some(n) = match_word(text, at, "[pause]") {
        Some((Token::Pause(None), n))
    } else if let Some(n) = match_word(text, at, "[slow]") {
        Some((Token::SlowStart, n))
    } else if let Some(n) = match_word(text, at, "[/slow]") {
        Some((Token::SlowEnd, n))
    } else if let Some(n) = match_word(text, at, "[fast]") {
        Some((Token::FastStart, n))
    } else if let Some(n) = match_word(text, at, "[/fast]") {
        Some((Token::FastEnd, n))
    } else if let Some(n) = match_word(text, at, "[emphasis]") {
        Some((Token::EmphasisStart, n))
    } else if let Some(n) = match_word(text, at, "[/emphasis]") {
        Some((Token::EmphasisEnd, n))
    } else if let Some(n) = match_word(text, at, "[spell]") {
        Some((Token::SpellStart, n))
    } else if let Some(n) = match_word(text, at, "[/spell]") {
        Some((Token::SpellEnd, n))
    } else if let Some(n) = match_word(text, at, "[whisper]") {
        Some((Token::WhisperStart, n))
    } else if let Some(n) = match_word(text, at, "[/whisper]") {
        Some((Token::WhisperEnd, n))
    } else {
        parse_timed_pause(text, at)
    }
}

/// Splits markup into tokens. Every input has a tokenization: brackets that
/// hold no directive stay in the text around them, and the empty input has no
/// tokens.
pub fn parse(input: &str) -> (tokens: Vec<Token>)
    ensures
        token_views(tokens@) == tokenize(input@),
{
    let text = chars_of(input);
    let mut tokens: Vec<Token> = Vec::new();
    let mut start: usize = 0;
    let mut i: usize = 0;
    assert(token_views(tokens@) + tokens_from(text@, 0, 0) =~= tokenize(text@));
    while i < text.len()
        invariant
            start <= i <= text.len(),
            token_views(tokens@) + tokens_from(text@, start as int, i as int) == tokenize(text@),
        decreases text.len() - i,
    {
        let ghost before = token_views(tokens@);
        match parse_tag(&text, i) {
            Some((token, n)) => {
                let ghost rest = tokens_from(text@, i + n, i + n);
                if start < i {
                    let run = Token::Text(string_of(&text, start, i));
                    tokens.push(run);
                }
                assert(token_views(tokens@) =~= before + text_run(text@, start as int, i as int));
                let ghost value = token@;
                tokens.push(token);
                assert(token_views(tokens@) =~= (before + text_run(
                    text@,
                    start as int,
                    i as int,
                )).push(value));
                assert(token_views(tokens@) + rest =~= before + (text_run(
                    text@,
                    start as int,
                    i as int,
                ).push(value) + rest));
                i = i + n;
                start = i;
            },
            None => {
                i += 1;
            },
        }
    }
    let ghost before = token_views(tokens@);
    if start < text.len() {
        let run = Token::Text(string_of(&text, start, text.len()));
        tokens.push(run);
    }
    assert(token_views(tokens@) =~= before + text_run(text@, start as int, text@.len() as int));
    tokens
}

} // verus!

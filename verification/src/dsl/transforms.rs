//! Renderer of the markup language.
//!
//! The tokens are read once, from left to right. Mode tokens switch the five
//! delivery modes on and off, pauses become runs of dots, and each text token
//! is rewritten by the modes that are on where it stands.

use vstd::prelude::*;
use crate::dsl::parser::{Token, TokenView, token_views};
use crate::text::{
    chars_of, push_chars, char_to_uppercase, is_alphanumeric_char, is_whitespace_char,
    lowercase_of, uppercase_of, uppercase_of_char,
};

verus! {

/// The number of dots that stand for one pause of unstated length.
pub const PAUSE_DOTS: usize = 3;

/// The span of a timed pause, in milliseconds, that one more dot stands for.
pub const MS_PER_DOT: u32 = 200;

/// The delivery modes that are on at some point of the markup.
#[derive(Clone, Copy, Debug)]
pub struct TransformState {
    pub slow: bool,
    pub fast: bool,
    pub emphasis: bool,
    pub spell: bool,
    pub whisper: bool,
}

/// The state in which rendering starts: every mode is off.
pub open spec fn initial_state() -> TransformState {
    TransformState { slow: false, fast: false, emphasis: false, spell: false, whisper: false }
}

impl Default for TransformState {
    fn default() -> (state: TransformState)
        ensures
            state == initial_state(),
    {
        TransformState { slow: false, fast: false, emphasis: false, spell: false, whisper: false }
    }
}

/// The modes after `token`, given the modes before it. A start token
/// switches its mode on and an end token switches it off, whatever the mode
/// was before; other tokens leave the modes alone.
pub open spec fn next_state(state: TransformState, token: TokenView) -> TransformState {
    match token {
        TokenView::SlowStart => TransformState { slow: true, ..state },
        TokenView::SlowEnd => TransformState { slow: false, ..state },
        TokenView::FastStart => TransformState { fast: true, ..state },
        TokenView::FastEnd => TransformState { fast: false, ..state },
        TokenView::EmphasisStart => TransformState { emphasis: true, ..state },
        TokenView::EmphasisEnd => TransformState { emphasis: false, ..state },
        TokenView::SpellStart => TransformState { spell: true, ..state },
        TokenView::SpellEnd => TransformState { spell: false, ..state },
        TokenView::WhisperStart => TransformState { whisper: true, ..state },
        TokenView::WhisperEnd => TransformState { whisper: false, ..state },
        TokenView::Text(_) => state,
        TokenView::Pause(_) => state,
    }
}

/// A run of `n` dots.
pub open spec fn dots(n: nat) -> Seq<char> {
    Seq::new(n, |i: int| '.')
}

/// The number of dots of a pause: three where no duration is given, else
/// one per 200 milliseconds and never fewer than three.
pub open spec fn pause_dots(ms: Option<u32>) -> nat {
    match ms {
        None => PAUSE_DOTS as nat,
        Some(ms) => if ms / MS_PER_DOT > PAUSE_DOTS {
            (ms / MS_PER_DOT) as nat
        } else {
            PAUSE_DOTS as nat
        },
    }
}

/// The pieces `pieces` in a row, with `sep` between one and the next.
pub open spec fn joined(pieces: Seq<Seq<char>>, sep: Seq<char>) -> Seq<char>
    decreases pieces.len(),
{
    if pieces.len() == 0 {
        Seq::empty()
    } else if pieces.len() == 1 {
        pieces[0]
    } else {
        joined(pieces.drop_last(), sep) + sep + pieces.last()
    }
}

/// For each letter or digit of `text`, in order, its uppercase form
/// followed by a full stop.
pub open spec fn spelled_letters(text: Seq<char>) -> Seq<Seq<char>>
    decreases text.len(),
{
    if text.len() == 0 {
        Seq::empty()
    } else if is_alphanumeric_char(text.last()) {
        spelled_letters(text.drop_last()).push(uppercase_of_char(text.last()).push('.'))
    } else {
        spelled_letters(text.drop_last())
    }
}

/// `text` spelled out: its letters and digits in uppercase, each with a full
/// stop, one space between them; every other character is left out.
pub open spec fn spelled(text: Seq<char>) -> Seq<char> {
    joined(spelled_letters(text), seq![' '])
}

/// The word `s[from..to]`, or nothing where the range is empty.
pub open spec fn word_run(s: Seq<char>, from: int, to: int) -> Seq<Seq<char>> {
    if from < to {
        seq![s.subrange(from, to)]
    } else {
        Seq::empty()
    }
}

/// The words of `s[start..]`, given that no white space stands at any
/// position from `start` up to `i`.
pub open spec fn words_from(s: Seq<char>, start: int, i: int) -> Seq<Seq<char>>
    decreases s.len() - i,
{
    if i >= s.len() {
        word_run(s, start, s.len() as int)
    } else if is_whitespace_char(s[i]) {
        word_run(s, start, i) + words_from(s, i + 1, i + 1)
    } else {
        words_from(s, start, i + 1)
    }
}

/// The words of `s`: its longest runs of characters that are not white space.
pub open spec fn words(s: Seq<char>) -> Seq<Seq<char>> {
    words_from(s, 0, 0)
}

/// `text` at a slow pace: its words with three dots and a space between
/// them and three dots at the end; nothing where it has no word.
pub open spec fn slowed(text: Seq<char>) -> Seq<char> {
    if words(text).len() == 0 {
        Seq::empty()
    } else {
        joined(words(text), dots(PAUSE_DOTS as nat).push(' ')) + dots(PAUSE_DOTS as nat)
    }
}

/// Whether three dots stand in `s` at position `i`.
pub open spec fn ellipsis_at(s: Seq<char>, i: int) -> bool {
    0 <= i && i + 3 <= s.len() && s[i] == '.' && s[i + 1] == '.' && s[i + 2] == '.'
}

/// `s[i..]` without its groups of three dots, which are looked for from
/// left to right and do not overlap.
pub open spec fn without_ellipses_from(s: Seq<char>, i: int) -> Seq<char>
    decreases s.len() - i,
{
    if i < 0 || i >= s.len() {
        Seq::empty()
    } else if ellipsis_at(s, i) {
        without_ellipses_from(s, i + 3)
    } else {
        seq![s[i]] + without_ellipses_from(s, i + 1)
    }
}

/// `s` without its commas.
pub open spec fn without_commas(s: Seq<char>) -> Seq<char>
    decreases s.len(),
{
    if s.len() == 0 {
        Seq::empty()
    } else if s.last() == ',' {
        without_commas(s.drop_last())
    } else {
        without_commas(s.drop_last()).push(s.last())
    }
}

/// `text` at a fast pace: first its groups of three dots are taken out,
/// then its commas.
pub open spec fn hurried(text: Seq<char>) -> Seq<char> {
    without_commas(without_ellipses_from(text, 0))
}

/// The text `text` as it is delivered under the modes `state`. Spelling
/// overrides every other mode. Otherwise emphasis puts the text in
/// uppercase, and of whisper, slow and fast only the first that is on
/// applies, in this order.
pub open spec fn styled(text: Seq<char>, state: TransformState) -> Seq<char> {
    if state.spell {
        spelled(text)
    } else {
        let loud = if state.emphasis {
            uppercase_of(text)
        } else {
            text
        };
        if state.whisper {
            seq!['('] + lowercase_of(loud) + seq![')']
        } else if state.slow {
            slowed(loud)
        } else if state.fast {
            hurried(loud)
        } else {
            loud
        }
    }
}

/// What `token` adds to the output under the modes `state`.
pub open spec fn emitted(state: TransformState, token: TokenView) -> Seq<char> {
    match token {
        TokenView::Text(text) => styled(text, state),
        TokenView::Pause(ms) => dots(pause_dots(ms)),
        _ => Seq::empty(),
    }
}

/// The modes that are on after all of `tokens`.
pub open spec fn state_after(tokens: Seq<TokenView>) -> TransformState
    decreases tokens.len(),
{
    if tokens.len() == 0 {
        initial_state()
    } else {
        next_state(state_after(tokens.drop_last()), tokens.last())
    }
}

/// The rendering of `tokens`: what each token adds under the modes that
/// the tokens before it have left, in order.
pub open spec fn rendered(tokens: Seq<TokenView>) -> Seq<char>
    decreases tokens.len(),
{
    if tokens.len() == 0 {
        Seq::empty()
    } else {
        rendered(tokens.drop_last()) + emitted(state_after(tokens.drop_last()), tokens.last())
    }
}

/// Appends `n` dots to `out`.
pub fn push_dots(out: &mut String, n: usize)
    ensures
        final(out)@ == old(out)@ + dots(n as nat),
{
    let mut i: usize = 0;
    assert(out@ =~= old(out)@ + dots(0));
    while i < n
        invariant
            i <= n,
            out@ == old(out)@ + dots(i as nat),
        decreases n - i,
    {
        assert((old(out)@ + dots(i as nat)).push('.') =~= old(out)@ + dots((i + 1) as nat));
        out.push('.');
        i += 1;
    }
}

/// Spells `text` out: `"BBC"` becomes `"B. B. C."`.
pub fn spell(text: &str) -> (out: String)
    ensures
        out@ == spelled(text@),
{
    let chars = chars_of(text);
    let mut out = String::new();
    let mut any = false;
    let mut i: usize = 0;
    assert(chars@.take(0) =~= Seq::<char>::empty());
    while i < chars.len()
        invariant
            i <= chars.len(),
            chars@ == text@,
            any == (spelled_letters(chars@.take(i as int)).len() > 0),
            out@ == spelled(chars@.take(i as int)),
        decreases chars.len() - i,
    {
        let c = chars[i];
        let ghost seen = chars@.take(i as int);
        let ghost next = chars@.take(i + 1);
        assert(next.drop_last() =~= seen);
        assert(next.last() == c);
        if c.is_alphanumeric() {
            let upper = char_to_uppercase(c);
            let ghost letter = uppercase_of_char(c).push('.');
            let ghost before = out@;
            assert(spelled_letters(next) == spelled_letters(seen).push(letter));
            assert(spelled_letters(next).drop_last() =~= spelled_letters(seen));
            if any {
                out.push(' ');
            }
            push_chars(&mut out, &upper, 0, upper.len());
            out.push('.');
            assert(upper@.subrange(0, upper@.len() as int) =~= upper@);
            if any {
                assert(out@ =~= before + seq![' '] + letter);
            } else {
                assert(out@ =~= letter);
            }
            any = true;
        }
        i += 1;
    }
    assert(chars@.take(chars@.len() as int) =~= chars@);
    out
}

/// Puts `text` at a slow pace: `"one two"` becomes `"one... two..."`.
pub fn slow_down(text: &str) -> (out: String)
    ensures
        out@ == slowed(text@),
{
    let chars = chars_of(text);
    let mut out = String::new();
    let ghost sep = dots(PAUSE_DOTS as nat).push(' ');
    let ghost mut done: Seq<Seq<char>> = Seq::empty();
    let mut any = false;
    let mut start: usize = 0;
    let mut i: usize = 0;
    while i < chars.len()
        invariant
            start <= i <= chars.len(),
            chars@ == text@,
            sep == dots(PAUSE_DOTS as nat).push(' '),
            any == (done.len() > 0),
            out@ == joined(done, sep),
            done + words_from(chars@, start as int, i as int) == words(chars@),
        decreases chars.len() - i,
    {
        if chars[i].is_whitespace() {
            let ghost rest = words_from(chars@, i + 1, i + 1);
            if start < i {
                let ghost word = chars@.subrange(start as int, i as int);
                let ghost before = out@;
                if any {
                    push_dots(&mut out, PAUSE_DOTS);
                    out.push(' ');
                }
                push_chars(&mut out, &chars, start, i);
                proof {
                    assert(done.push(word).drop_last() =~= done);
                    if any {
                        assert(out@ =~= before + sep + word);
                    } else {
                        assert(out@ =~= word);
                    }
                    assert(done.push(word) + rest =~= done + (seq![word] + rest));
                    done = done.push(word);
                }
                any = true;
            } else {
                assert(done + rest =~= done + (Seq::<Seq<char>>::empty() + rest));
            }
            start = i + 1;
        }
        i += 1;
    }
    if start < chars.len() {
        let ghost word = chars@.subrange(start as int, chars@.len() as int);
        let ghost before = out@;
        if any {
            push_dots(&mut out, PAUSE_DOTS);
            out.push(' ');
        }
        push_chars(&mut out, &chars, start, chars.len());
        proof {
            assert(done.push(word).drop_last() =~= done);
            if any {
                assert(out@ =~= before + sep + word);
            } else {
                assert(out@ =~= word);
            }
            assert(done.push(word) =~= done + seq![word]);
            done = done.push(word);
        }
        any = true;
    } else {
        assert(done + Seq::<Seq<char>>::empty() =~= done);
    }
    if any {
        push_dots(&mut out, PAUSE_DOTS);
    }
    out
}

/// Puts `text` at a fast pace: `"hello, world..."` becomes `"hello world"`.
pub fn hurry(text: &str) -> (out: String)
    ensures
        out@ == hurried(text@),
{
    let chars = chars_of(text);
    let mut out = String::new();
    let ghost mut kept: Seq<char> = Seq::empty();
    let mut i: usize = 0;
    while i < chars.len()
        invariant
            i <= chars.len(),
            chars@ == text@,
            out@ == without_commas(kept),
            kept + without_ellipses_from(chars@, i as int) == without_ellipses_from(chars@, 0),
        decreases chars.len() - i,
    {
        if chars.len() - i >= 3 && chars[i] == '.' && chars[i + 1] == '.' && chars[i + 2] == '.' {
            i += 3;
        } else {
            let c = chars[i];
            let ghost rest = without_ellipses_from(chars@, i + 1);
            proof {
                assert(kept.push(c).drop_last() =~= kept);
                assert(kept.push(c) + rest =~= kept + (seq![c] + rest));
                kept = kept.push(c);
            }
            if c != ',' {
                out.push(c);
            }
            i += 1;
        }
    }
    assert(kept + Seq::<char>::empty() =~= kept);
    out
}

/// Rewrites one run of text by the modes that are on.
pub fn apply_state(text: &str, state: &TransformState) -> (out: String)
    ensures
        out@ == styled(text@, *state),
{
    if state.spell {
        return spell(text);
    }
    let loud = if state.emphasis {
        text.to_uppercase()
    } else {
        text.to_owned()
    };
    if state.whisper {
        let quiet = loud.as_str().to_lowercase();
        let quiet_chars = chars_of(quiet.as_str());
        let mut out = String::new();
        out.push('(');
        push_chars(&mut out, &quiet_chars, 0, quiet_chars.len());
        out.push(')');
        assert(quiet_chars@.subrange(0, quiet_chars@.len() as int) =~= quiet_chars@);
        assert(out@ =~= seq!['('] + lowercase_of(loud@) + seq![')']);
        out
    } else if state.slow {
        slow_down(loud.as_str())
    } else if state.fast {
        hurry(loud.as_str())
    } else {
        loud
    }
}

/// Renders tokens into plain text in one pass from left to right. Modes
/// need not be balanced: an end without a start changes nothing, and a
/// start without an end lasts to the end of the tokens.
pub fn transform(tokens: Vec<Token>) -> (out: String)
    ensures
        out@ == rendered(token_views(tokens@)),
{
    let ghost views = token_views(tokens@);
    let mut out = String::new();
    let mut state = TransformState::default();
    let mut i: usize = 0;
    assert(views.take(0) =~= Seq::<TokenView>::empty());
    while i < tokens.len()
        invariant
            i <= tokens.len(),
            views == token_views(tokens@),
            state == state_after(views.take(i as int)),
            out@ == rendered(views.take(i as int)),
        decreases tokens.len() - i,
    {
        let ghost seen = views.take(i as int);
        let ghost next = views.take(i + 1);
        assert(next.drop_last() =~= seen);
        assert(next.last() == tokens@[i as int]@);
        match &tokens[i] {
            Token::Text(text) => {
                let piece = apply_state(text.as_str(), &state);
                let piece_chars = chars_of(piece.as_str());
                push_chars(&mut out, &piece_chars, 0, piece_chars.len());
                assert(piece_chars@.subrange(0, piece_chars@.len() as int) =~= piece_chars@);
            },
            Token::Pause(None) => {
                push_dots(&mut out, PAUSE_DOTS);
            },
            Token::Pause(Some(ms)) => {
                let scaled = (*ms / MS_PER_DOT) as usize;
                let n = if scaled > PAUSE_DOTS {
                    scaled
                } else {
                    PAUSE_DOTS
                };
                push_dots(&mut out, n);
            },
            Token::SlowStart => {
                state.slow = true;
            },
            Token::SlowEnd => {
                state.slow = false;
            },
            Token::FastStart => {
                state.fast = true;
            },
            Token::FastEnd => {
                state.fast = false;
            },
            Token::EmphasisStart => {
                state.emphasis = true;
            },
            Token::EmphasisEnd => {
                state.emphasis = false;
            },
            Token::SpellStart => {
                state.spell = true;
            },
            Token::SpellEnd => {
                state.spell = false;
            },
            Token::WhisperStart => {
                state.whisper = true;
            },
            Token::WhisperEnd => {
                state.whisper = false;
            },
        }
        assert(out@ =~= rendered(seen) + emitted(state_after(seen), next.last()));
        i += 1;
    }
    assert(views.take(views.len() as int) =~= views);
    out
}

/// A longer pause never has fewer dots, and a pause under 800
/// milliseconds has three.
pub proof fn lemma_pause_dots_grow(shorter: u32, longer: u32)
    requires
        shorter <= longer,
    ensures
        3 <= pause_dots(Some(shorter)) <= pause_dots(Some(longer)),
        shorter < 800 ==> pause_dots(Some(shorter)) == 3,
        pause_dots(None) == 3,
{
}

/// Modes do not count: a token that is repeated leaves the modes as its
/// first occurrence left them.
pub proof fn lemma_mode_tokens_are_idempotent(state: TransformState, token: TokenView)
    ensures
        next_state(next_state(state, token), token) == next_state(state, token),
{
}

/// Spelling shuts out every other mode, and whisper shuts out slow and fast.
pub proof fn lemma_mode_precedence(text: Seq<char>, state: TransformState)
    ensures
        state.spell ==> styled(text, state) == spelled(text),
        !state.spell && state.whisper ==> styled(text, state) == styled(
            text,
            TransformState { slow: false, fast: false, ..state },
        ),
        !state.spell && !state.whisper && state.slow ==> styled(text, state) == styled(
            text,
            TransformState { fast: false, ..state },
        ),
{
}

} // verus!

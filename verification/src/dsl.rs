//! The markup language: plain text with bracketed directives for pauses and
//! delivery modes, compiled into plain text that a speech engine can read.

pub mod parser;
pub mod transforms;

use vstd::prelude::*;
use crate::dsl::parser::{has_directive, tag_at, text_run, tokenize, tokens_from, TokenView};
use crate::dsl::transforms::{emitted, initial_state, rendered, state_after};

verus! {

/// Compiles markup into the plain text that is handed to the phonemizer.
pub fn process(input: &str) -> (out: String)
    ensures
        out@ == rendered(tokenize(input@)),
{
    let tokens = parser::parse(input);
    transforms::transform(tokens)
}

/// Where no directive starts at or after position `i`, what is left to
/// tokenize is one run of text.
pub proof fn lemma_no_directive_one_run(s: Seq<char>, start: int, i: int)
    requires
        0 <= start <= i <= s.len(),
        forall|k: int| i <= k < s.len() ==> (#[trigger] tag_at(s, k)) is None,
    ensures
        tokens_from(s, start, i) == text_run(s, start, s.len() as int),
    decreases s.len() - i,
{
    if i < s.len() {
        assert(tag_at(s, i) is None);
        lemma_no_directive_one_run(s, start, i + 1);
    }
}

/// Text without any directive is its own rendering: compiling it changes
/// nothing.
pub proof fn lemma_plain_text_is_unchanged(text: Seq<char>)
    requires
        !has_directive(text),
    ensures
        rendered(tokenize(text)) == text,
{
    lemma_no_directive_one_run(text, 0, 0);
    if text.len() == 0 {
        assert(text =~= Seq::<char>::empty());
    } else {
        let whole = TokenView::Text(text.subrange(0, text.len() as int));
        let tokens = seq![whole];
        assert(text.subrange(0, text.len() as int) =~= text);
        assert(tokens.drop_last() =~= Seq::<TokenView>::empty());
        assert(tokens.last() == whole);
        assert(state_after(tokens.drop_last()) == initial_state());
        assert(rendered(tokens.drop_last()) =~= Seq::<char>::empty());
        assert(rendered(tokens) =~= emitted(initial_state(), whole));
    }
}

/// The empty markup has no tokens, and no tokens render to the empty text.
pub proof fn lemma_empty_markup()
    ensures
        tokenize(Seq::<char>::empty()) == Seq::<TokenView>::empty(),
        rendered(Seq::<TokenView>::empty()) == Seq::<char>::empty(),
{
}

} // verus!

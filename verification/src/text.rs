//! Character-level building blocks: conversions between strings and
//! character vectors, and the Unicode classifications and case mappings of
//! the standard library that the rest of the crate relies on.

use vstd::prelude::*;

verus! {

/// Whether `c` has the Unicode property Alphabetic or is a number
/// (general categories Nd, Nl, No), as `char::is_alphanumeric` decides it.
pub uninterp spec fn is_alphanumeric_char(c: char) -> bool;

/// Whether `c` has the Unicode property White_Space, as
/// `char::is_whitespace` decides it.
pub uninterp spec fn is_whitespace_char(c: char) -> bool;

/// The uppercase mapping of the single character `c`, which may be several
/// characters long, as `char::to_uppercase` yields it.
pub uninterp spec fn uppercase_of_char(c: char) -> Seq<char>;

/// The uppercase equivalent of the text `s`, as `str::to_uppercase`
/// returns it.
pub uninterp spec fn uppercase_of(s: Seq<char>) -> Seq<char>;

/// The lowercase equivalent of the text `s`, as `str::to_lowercase`
/// returns it.
pub uninterp spec fn lowercase_of(s: Seq<char>) -> Seq<char>;

/// `String::push` appends the given character to the end of the string.
pub assume_specification[ String::push ](s: &mut String, c: char)
    ensures
        final(s)@ == old(s)@.push(c),
;

/// `char::is_alphanumeric` depends on the character alone; its result is
/// named `is_alphanumeric_char`.
pub assume_specification[ char::is_alphanumeric ](c: char) -> (b: bool)
    ensures
        b == is_alphanumeric_char(c),
;

/// `char::is_whitespace` depends on the character alone; its result is
/// named `is_whitespace_char`.
pub assume_specification[ char::is_whitespace ](c: char) -> (b: bool)
    ensures
        b == is_whitespace_char(c),
;

/// `str::to_uppercase` returns a new string that depends on the text alone;
/// its contents are named `uppercase_of`.
pub assume_specification[ str::to_uppercase ](s: &str) -> (r: String)
    ensures
        r@ == uppercase_of(s@),
;

/// `str::to_lowercase` returns a new string that depends on the text alone;
/// its contents are named `lowercase_of`.
pub assume_specification[ str::to_lowercase ](s: &str) -> (r: String)
    ensures
        r@ == lowercase_of(s@),
;

/// Collects the characters that `char::to_uppercase` yields for `c`; they
/// depend on the character alone and are named `uppercase_of_char`.
#[verifier::external_body]
pub(crate) fn char_to_uppercase(c: char) -> (r: Vec<char>)
    ensures
        r@ == uppercase_of_char(c),
{
    c.to_uppercase().collect()
}

/// The texts of a sequence of strings.
pub open spec fn texts_of(strings: Seq<String>) -> Seq<Seq<char>> {
    strings.map_values(|s: String| s@)
}

/// The first position at or after `i` of `s` that holds no white space.
pub open spec fn leading_space_end(s: Seq<char>, i: int) -> int
    decreases s.len() - i,
{
    if 0 <= i < s.len() && is_whitespace_char(s[i]) {
        leading_space_end(s, i + 1)
    } else {
        i
    }
}

/// The position at which the white space that ends `s[..j]` starts.
pub open spec fn trailing_space_start(s: Seq<char>, j: int) -> int
    decreases j,
{
    if 0 < j <= s.len() && is_whitespace_char(s[j - 1]) {
        trailing_space_start(s, j - 1)
    } else {
        j
    }
}

/// `s` without the white space at its two ends.
pub open spec fn trimmed(s: Seq<char>) -> Seq<char> {
    let from = leading_space_end(s, 0);
    if from >= s.len() {
        Seq::empty()
    } else {
        s.subrange(from, trailing_space_start(s, s.len() as int))
    }
}

/// The characters of `s`, in order.
pub fn chars_of(s: &str) -> (v: Vec<char>)
    ensures
        v@ == s@,
{
    let mut v: Vec<char> = Vec::new();
    for c in it: s.chars()
        invariant
            it.seq() == s@,
            v@ == s@.take(it.index()),
    {
        assert(s@.take(it.index()).push(c) =~= s@.take(it.index() + 1));
        v.push(c);
    }
    assert(s@.take(s@.len() as int) =~= s@);
    v
}

/// Appends the characters `chars[from..to]` to `out`.
pub fn push_chars(out: &mut String, chars: &Vec<char>, from: usize, to: usize)
    requires
        from <= to <= chars.len(),
    ensures
        final(out)@ == old(out)@ + chars@.subrange(from as int, to as int),
{
    let mut i: usize = from;
    while i < to
        invariant
            from <= i <= to <= chars.len(),
            out@ == old(out)@ + chars@.subrange(from as int, i as int),
        decreases to - i,
    {
        assert(chars@.subrange(from as int, i as int).push(chars@[i as int])
            =~= chars@.subrange(from as int, i + 1));
        out.push(chars[i]);
        i += 1;
    }
}

/// The string made of the characters `chars[from..to]`.
pub fn string_of(chars: &Vec<char>, from: usize, to: usize) -> (s: String)
    requires
        from <= to <= chars.len(),
    ensures
        s@ == chars@.subrange(from as int, to as int),
{
    let mut s = String::new();
    push_chars(&mut s, chars, from, to);
    s
}

/// Appends the characters of `s` to `out`.
pub fn push_str(out: &mut String, s: &str)
    ensures
        final(out)@ == old(out)@ + s@,
{
    assert(out@ =~= old(out)@ + s@.take(0));
    for c in it: s.chars()
        invariant
            it.seq() == s@,
            out@ == old(out)@ + s@.take(it.index()),
    {
        assert((old(out)@ + s@.take(it.index())).push(c) =~= old(out)@ + s@.take(it.index() + 1));
        out.push(c);
    }
    assert(s@.take(s@.len() as int) =~= s@);
}

/// The texts `a` and `b`, one after the other.
pub fn concat(a: &str, b: &str) -> (out: String)
    ensures
        out@ == a@ + b@,
{
    let mut out = a.to_owned();
    push_str(&mut out, b);
    out
}

/// The text without the white space at its two ends.
pub fn trim(text: &str) -> (out: String)
    ensures
        out@ == trimmed(text@),
{
    let chars = chars_of(text);
    let mut from: usize = 0;
    while from < chars.len() && chars[from].is_whitespace()
        invariant
            from <= chars.len(),
            leading_space_end(chars@, 0) == leading_space_end(chars@, from as int),
        decreases chars.len() - from,
    {
        from += 1;
    }
    if from >= chars.len() {
        return String::new();
    }
    let mut to: usize = chars.len();
    while chars[to - 1].is_whitespace()
        invariant
            from < to <= chars.len(),
            !is_whitespace_char(chars@[from as int]),
            trailing_space_start(chars@, chars@.len() as int) == trailing_space_start(
                chars@,
                to as int,
            ),
        decreases to,
    {
        to -= 1;
    }
    string_of(&chars, from, to)
}

} // verus!

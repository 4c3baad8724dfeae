use piper_tts::dsl::process;

#[test]
fn test_simple_pause() {
    assert_eq!(process("Hello [pause] world"), "Hello ... world");
}

#[test]
fn test_timed_pause() {
    let result = process("Wait [pause:600] here");
    assert!(result.contains("..."));
    assert!(result.contains("Wait"));
    assert!(result.contains("here"));
}

#[test]
fn test_slow() {
    let result = process("[slow]one two[/slow]");
    assert!(result.contains("one"));
    assert!(result.contains("two"));
    assert!(result.contains("..."));
}

#[test]
fn test_emphasis() {
    assert_eq!(
        process("This is [emphasis]important[/emphasis]"),
        "This is IMPORTANT"
    );
}

#[test]
fn test_spell() {
    assert_eq!(process("[spell]BBC[/spell]"), "B. B. C.");
}

#[test]
fn test_whisper() {
    assert_eq!(process("[whisper]Secret[/whisper]"), "(secret)");
}

#[test]
fn test_no_tags() {
    assert_eq!(process("Plain text here."), "Plain text here.");
}

#[test]
fn test_unknown_tag_passthrough() {
    assert_eq!(process("Hello [unknown] world"), "Hello [unknown] world");
}

#[test]
fn test_empty_input() {
    assert_eq!(process(""), "");
}

#[test]
fn timed_pause_has_exactly_three_dots() {
    assert_eq!(process("Wait [pause:600] here"), "Wait ... here");
}

#[test]
fn timed_pause_scales_above_the_floor() {
    assert_eq!(process("[pause:0]"), "...");
    assert_eq!(process("[pause:799]"), "...");
    assert_eq!(process("[pause:800]"), "....");
    assert_eq!(process("[pause:2000]"), "..........");
}

#[test]
fn plain_text_is_unchanged() {
    for text in ["a", "no tags, at all...", "[", "]", "[pause", "pause]", "[pause:]", "[ slow ]"] {
        assert_eq!(process(text), text);
    }
}

#[test]
fn spelling_overrides_every_other_mode() {
    assert_eq!(
        process("[whisper][emphasis][slow][fast][spell]a-b 1[/spell]"),
        "A. B. 1."
    );
}

#[test]
fn whisper_lowers_emphasized_text() {
    assert_eq!(process("[emphasis][whisper]Hey You[/whisper]"), "(hey you)");
}

#[test]
fn whisper_takes_precedence_over_slow_and_fast() {
    assert_eq!(process("[slow][fast][whisper]a, b[/whisper]"), "(a, b)");
}

#[test]
fn slow_takes_precedence_over_fast() {
    assert_eq!(process("[fast][slow]one, two[/slow]"), "one,... two...");
}

#[test]
fn slow_text_without_words_is_empty() {
    assert_eq!(process("[slow] \t\n[/slow]"), "");
}

#[test]
fn fast_strips_dots_before_commas() {
    assert_eq!(process("[fast]a....b.,..c,[/fast]"), "a.b...c");
}

#[test]
fn unmatched_end_changes_nothing() {
    assert_eq!(process("[/emphasis]quiet[/slow]"), "quiet");
}

#[test]
fn unmatched_start_lasts_to_the_end() {
    assert_eq!(process("a [emphasis]b [pause] c"), "a B ... C");
}

#[test]
fn starting_a_mode_twice_is_ended_once() {
    assert_eq!(process("[emphasis][emphasis]a[/emphasis]b"), "Ab");
}

#[test]
fn spelling_uses_the_full_uppercase_mapping() {
    assert_eq!(process("[spell]\u{df}[/spell]"), "SS.");
}

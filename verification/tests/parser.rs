use piper_tts::dsl::parser::{parse, Token, FALLBACK_PAUSE_MS};

#[test]
fn parses_plain_text() {
    let tokens = parse("Hello world");
    assert_eq!(tokens.len(), 1);
    assert!(matches!(&tokens[0], Token::Text(s) if s == "Hello world"));
}

#[test]
fn parses_simple_pause() {
    let tokens = parse("Hello [pause] world");
    assert_eq!(tokens.len(), 3);
    assert!(matches!(&tokens[0], Token::Text(s) if s == "Hello "));
    assert!(matches!(tokens[1], Token::Pause(None)));
    assert!(matches!(&tokens[2], Token::Text(s) if s == " world"));
}

#[test]
fn parses_timed_pause() {
    let tokens = parse("[pause:500]");
    assert_eq!(tokens.len(), 1);
    assert!(matches!(tokens[0], Token::Pause(Some(500))));
}

#[test]
fn parses_paired_tags() {
    let tokens = parse("[slow]text[/slow]");
    assert_eq!(tokens.len(), 3);
    assert!(matches!(tokens[0], Token::SlowStart));
    assert!(matches!(&tokens[1], Token::Text(s) if s == "text"));
    assert!(matches!(tokens[2], Token::SlowEnd));
}

#[test]
fn parses_emphasis() {
    let tokens = parse("[emphasis]important[/emphasis]");
    assert_eq!(tokens.len(), 3);
    assert!(matches!(tokens[0], Token::EmphasisStart));
    assert!(matches!(tokens[2], Token::EmphasisEnd));
}

#[test]
fn parses_spell() {
    let tokens = parse("[spell]ABC[/spell]");
    assert_eq!(tokens.len(), 3);
    assert!(matches!(tokens[0], Token::SpellStart));
    assert!(matches!(tokens[2], Token::SpellEnd));
}

#[test]
fn parses_whisper() {
    let tokens = parse("[whisper]secret[/whisper]");
    assert_eq!(tokens.len(), 3);
    assert!(matches!(tokens[0], Token::WhisperStart));
    assert!(matches!(tokens[2], Token::WhisperEnd));
}

#[test]
fn parses_fast() {
    let tokens = parse("[fast]quick[/fast]");
    assert_eq!(tokens.len(), 3);
    assert!(matches!(tokens[0], Token::FastStart));
    assert!(matches!(tokens[2], Token::FastEnd));
}

#[test]
fn parses_empty_input_to_no_tokens() {
    assert_eq!(parse(""), Vec::<Token>::new());
}

#[test]
fn parses_every_directive() {
    assert_eq!(
        parse("[pause][slow][/slow][fast][/fast][emphasis][/emphasis][spell][/spell][whisper][/whisper]"),
        vec![
            Token::Pause(None),
            Token::SlowStart,
            Token::SlowEnd,
            Token::FastStart,
            Token::FastEnd,
            Token::EmphasisStart,
            Token::EmphasisEnd,
            Token::SpellStart,
            Token::SpellEnd,
            Token::WhisperStart,
            Token::WhisperEnd,
        ]
    );
}

#[test]
fn unknown_brackets_stay_in_the_text() {
    assert_eq!(
        parse("a [b] [Pause] [pause ] [/pause] c"),
        vec![Token::Text("a [b] [Pause] [pause ] [/pause] c".to_string())]
    );
}

#[test]
fn directive_inside_brackets_is_found() {
    assert_eq!(
        parse("[[pause]]"),
        vec![Token::Text("[".to_string()), Token::Pause(None), Token::Text("]".to_string())]
    );
}

#[test]
fn timed_pause_needs_digits_and_a_closing_bracket() {
    assert_eq!(parse("[pause:]"), vec![Token::Text("[pause:]".to_string())]);
    assert_eq!(parse("[pause:12"), vec![Token::Text("[pause:12".to_string())]);
    assert_eq!(parse("[pause:1x]"), vec![Token::Text("[pause:1x]".to_string())]);
    assert_eq!(parse("[pause:-1]"), vec![Token::Text("[pause:-1]".to_string())]);
}

#[test]
fn timed_pause_reads_its_digits_in_base_ten() {
    assert_eq!(parse("[pause:0]"), vec![Token::Pause(Some(0))]);
    assert_eq!(parse("[pause:007]"), vec![Token::Pause(Some(7))]);
    assert_eq!(parse("[pause:4294967295]"), vec![Token::Pause(Some(u32::MAX))]);
}

#[test]
fn timed_pause_too_large_takes_the_fallback() {
    assert_eq!(FALLBACK_PAUSE_MS, 200);
    assert_eq!(parse("[pause:4294967296]"), vec![Token::Pause(Some(200))]);
    assert_eq!(
        parse("[pause:99999999999999999999999999]"),
        vec![Token::Pause(Some(200))]
    );
}

#[test]
fn timed_pause_with_other_decimal_digits_takes_the_fallback() {
    // U+0663 ARABIC-INDIC DIGIT THREE is a decimal digit, U+00B2 SUPERSCRIPT TWO is not.
    assert_eq!(parse("[pause:\u{663}]"), vec![Token::Pause(Some(200))]);
    assert_eq!(parse("[pause:1\u{663}]"), vec![Token::Pause(Some(200))]);
    assert_eq!(
        parse("[pause:\u{b2}]"),
        vec![Token::Text("[pause:\u{b2}]".to_string())]
    );
}

#[test]
fn text_between_directives_is_one_token_each() {
    assert_eq!(
        parse("a[pause:1]b c[slow]"),
        vec![
            Token::Text("a".to_string()),
            Token::Pause(Some(1)),
            Token::Text("b c".to_string()),
            Token::SlowStart,
        ]
    );
}

#[test]
fn text_beyond_ascii_is_kept() {
    assert_eq!(
        parse("h\u{e9}[pause]\u{1f600}"),
        vec![
            Token::Text("h\u{e9}".to_string()),
            Token::Pause(None),
            Token::Text("\u{1f600}".to_string()),
        ]
    );
}

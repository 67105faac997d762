use imgii::error::{IntParseKind, ParseError};
use imgii::token_parser::{chars_of, parse_line};

fn line_of(s: &str) -> Vec<char> {
    s.chars().collect()
}

#[test]
fn chars_of_collects_every_character() {
    let v = chars_of("a\u{1b}[38;2;1;2;3mZ");
    assert_eq!(v, "a\u{1b}[38;2;1;2;3mZ".chars().collect::<Vec<char>>());
}

#[test]
fn parses_two_tokens_in_order() {
    let toks = parse_line(&line_of("\x1b[38;2;255;0;0mA\x1b[38;2;0;255;0mB")).unwrap();
    assert_eq!(toks.len(), 2);
    assert_eq!((toks[0].red, toks[0].green, toks[0].blue, toks[0].text), (255, 0, 0, 'A'));
    assert_eq!((toks[1].red, toks[1].green, toks[1].blue, toks[1].text), (0, 255, 0, 'B'));
}

#[test]
fn passes_over_text_outside_color_spans() {
    let toks = parse_line(&line_of("hello \x1b[0m \x1b[38;2;1;2;3mQ tail")).unwrap();
    assert_eq!(toks.len(), 1);
    assert_eq!((toks[0].red, toks[0].green, toks[0].blue, toks[0].text), (1, 2, 3, 'Q'));
}

#[test]
fn empty_line_has_no_tokens() {
    let toks = parse_line(&line_of("")).unwrap();
    assert_eq!(toks.len(), 0);
}

#[test]
fn channel_256_is_a_value_parse_error() {
    let err = parse_line(&line_of("\x1b[38;2;256;0;0mA")).unwrap_err();
    match err {
        ParseError::ParseValue(e) => {
            assert_eq!(e.value_name, "red");
            assert_eq!(e.the_str, "256");
            assert!(matches!(e.kind, IntParseKind::Overflow));
        }
        other => panic!("expected a value parse error, got {:?}", other),
    }
}

#[test]
fn non_digit_channel_is_a_value_parse_error() {
    let err = parse_line(&line_of("\x1b[38;2;12;a4;0mA")).unwrap_err();
    match err {
        ParseError::ParseValue(e) => {
            assert_eq!(e.value_name, "green");
            assert_eq!(e.the_str, "a4");
            assert!(matches!(e.kind, IntParseKind::InvalidDigit));
        }
        other => panic!("expected a value parse error, got {:?}", other),
    }
}

#[test]
fn empty_channel_is_a_value_parse_error() {
    let err = parse_line(&line_of("\x1b[38;2;1;2;mA")).unwrap_err();
    match err {
        ParseError::ParseValue(e) => {
            assert_eq!(e.value_name, "blue");
            assert_eq!(e.the_str, "");
            assert!(matches!(e.kind, IntParseKind::Empty));
        }
        other => panic!("expected a value parse error, got {:?}", other),
    }
}

#[test]
fn overflow_in_blue_channel_names_blue() {
    let err = parse_line(&line_of("\x1b[38;2;1;2;999mA")).unwrap_err();
    match err {
        ParseError::ParseValue(e) => {
            assert_eq!(e.value_name, "blue");
            assert_eq!(e.the_str, "999");
            assert!(matches!(e.kind, IntParseKind::Overflow));
        }
        other => panic!("expected a value parse error, got {:?}", other),
    }
}

#[test]
fn leading_zeros_still_parse() {
    let toks = parse_line(&line_of("\x1b[38;2;0255;007;0mA")).unwrap();
    assert_eq!((toks[0].red, toks[0].green, toks[0].blue), (255, 7, 0));
}

#[test]
fn cut_off_escape_is_a_pattern_error() {
    let err = parse_line(&line_of("xy\x1b[38;2;1;2;3")).unwrap_err();
    match err {
        ParseError::Pattern(p) => assert_eq!(p.column, 2),
        other => panic!("expected a pattern error, got {:?}", other),
    }
}

#[test]
fn escape_without_trailing_character_is_a_pattern_error() {
    let err = parse_line(&line_of("\x1b[38;2;1;2;3m")).unwrap_err();
    assert!(matches!(err, ParseError::Pattern(_)));
}

#[test]
fn space_token_is_blank() {
    let toks = parse_line(&line_of("\x1b[38;2;5;6;7m \x1b[38;2;5;6;7mX")).unwrap();
    assert!(toks[0].is_blank());
    assert!(!toks[1].is_blank());
}

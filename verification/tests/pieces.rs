use lox_frontend::chars::{
    alphabetic, alphanumeric, digit, identifier_part, identifier_start, whitespace,
};
use lox_frontend::text::{decode, push_decimal, push_line, same, spells, to_upper, to_uppercase};
use lox_frontend::token::Token;

#[test]
fn the_digits_are_zero_to_nine() {
    for c in '0'..='9' {
        assert!(digit(c));
    }
    for c in ['/', ':', 'a', ' ', '.', '\u{663}', '\u{ff11}'] {
        assert!(!digit(c));
    }
}

#[test]
fn whitespace_is_four_characters() {
    for c in [' ', '\t', '\r', '\n'] {
        assert!(whitespace(c));
    }
    for c in ['a', '0', '\u{b}', '\u{c}', '\u{a0}', '_'] {
        assert!(!whitespace(c));
    }
}

#[test]
fn letters_of_ascii_and_beyond() {
    for c in ('a'..='z').chain('A'..='Z') {
        assert!(alphabetic(c));
        assert!(alphanumeric(c));
        assert!(identifier_start(c));
        assert!(identifier_part(c));
    }
    for c in ['\u{e9}', '\u{3b1}', '\u{4eac}'] {
        assert!(alphabetic(c));
        assert!(alphanumeric(c));
        assert!(identifier_start(c));
        assert!(identifier_part(c));
    }
    for c in ['@', '[', '`', '{', '\u{7f}', '\u{2192}', '\u{1f49d}', ' '] {
        assert!(!alphabetic(c));
        assert!(!alphanumeric(c));
        assert!(!identifier_start(c));
        assert!(!identifier_part(c));
    }
}

#[test]
fn digits_continue_an_identifier_and_begin_none() {
    for c in ('0'..='9').chain(['\u{663}', '\u{b2}']) {
        assert!(!alphabetic(c));
        assert!(alphanumeric(c));
        assert!(!identifier_start(c));
        assert!(identifier_part(c));
    }
    assert!(identifier_start('_'));
    assert!(identifier_part('_'));
    assert!(!alphabetic('_'));
    assert!(!alphanumeric('_'));
}

#[test]
fn decoding_gives_the_characters() {
    assert_eq!(decode(""), Vec::<char>::new());
    assert_eq!(decode("a\u{e9}\n\u{1f49d}"), vec!['a', '\u{e9}', '\n', '\u{1f49d}']);
}

#[test]
fn upper_case_of_ascii_letters() {
    assert_eq!(to_upper('a'), 'A');
    assert_eq!(to_upper('m'), 'M');
    assert_eq!(to_upper('z'), 'Z');
    for c in ['A', 'Z', '0', '_', '`', '{', '\u{e9}', '\u{df}'] {
        assert_eq!(to_upper(c), c);
    }
    assert_eq!(to_uppercase("while"), "WHILE");
    assert_eq!(to_uppercase("a_b1 \u{e9}Z"), "A_B1 \u{e9}Z");
    assert_eq!(to_uppercase(""), "");
}

#[test]
fn decimal_numerals() {
    for n in [0usize, 1, 9, 10, 11, 99, 100, 101, 1000, 65535, 1_000_000, 4_294_967_295] {
        let mut s = String::from("line ");
        push_decimal(&mut s, n);
        assert_eq!(s, format!("line {}", n));
    }
    let mut s = String::new();
    push_decimal(&mut s, usize::MAX);
    assert_eq!(s, usize::MAX.to_string());
}

#[test]
fn texts_are_compared_by_their_characters() {
    assert!(same("", ""));
    assert!(same("nil", "nil"));
    assert!(!same("nil", "nill"));
    assert!(!same("nil", "nik"));
    assert!(!same("nil", "Nil"));
    assert!(!same("", " "));
    assert!(spells(&vec!['t', 'r', 'u', 'e'], "true"));
    assert!(!spells(&vec!['t', 'r', 'u'], "true"));
    assert!(!spells(&vec!['t', 'r', 'u', 'E'], "true"));
}

#[test]
fn lines_are_appended_at_the_end() {
    let mut lines = vec!["a".to_string()];
    push_line(&mut lines, "b".to_string());
    push_line(&mut lines, String::new());
    assert_eq!(lines, vec!["a", "b", ""]);
}

#[test]
fn a_cloned_token_is_the_same_token() {
    let tokens = vec![
        Token::Number("1.5".to_string()),
        Token::Identifier("x".to_string()),
        Token::String("a b".to_string()),
        Token::ReservedWord("for".to_string()),
        Token::LeftBrace,
        Token::SemiColumn,
        Token::GreaterEqual,
    ];
    for token in &tokens {
        assert_eq!(&token.clone(), token);
    }
    assert_ne!(Token::Identifier("for".to_string()), Token::ReservedWord("for".to_string()));
    assert_ne!(Token::Number("1".to_string()), Token::Number("1.0".to_string()));
}

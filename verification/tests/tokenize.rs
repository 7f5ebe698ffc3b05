use lox_frontend::error::{LexError, LexErrorKind};
use lox_frontend::lexer::{tokenize, Lexer};
use lox_frontend::report::{error_lines, token_lines};
use lox_frontend::token::Token;

/// The value of a number in canonical form: with `.0` where it is whole,
/// else in its shortest decimal form.
fn canonical(lexeme: &str) -> String {
    let value: f64 = lexeme.parse().unwrap();
    if value.fract() == 0.0 {
        format!("{:.1}", value)
    } else {
        format!("{}", value)
    }
}

fn values_for(tokens: &Vec<Token>) -> Vec<String> {
    let mut values = Vec::new();
    for token in tokens {
        match token {
            Token::Number(lexeme) => values.push(canonical(lexeme)),
            _ => values.push(String::new()),
        }
    }
    values
}

/// Standard output, standard error and exit code of a listing of `source`.
fn run(source: &str) -> (Vec<String>, Vec<String>, i32) {
    let out = tokenize(source);
    let values = values_for(&out.tokens);
    (token_lines(&out.tokens, &values), error_lines(&out.errors), out.exit_code)
}

fn ident(name: &str) -> Token {
    Token::Identifier(name.to_string())
}

fn number(lexeme: &str) -> Token {
    Token::Number(lexeme.to_string())
}

fn word(text: &str) -> Token {
    Token::ReservedWord(text.to_string())
}

#[test]
fn parenthesised_string_over_three_lines() {
    let (out, err, code) = run("(\n  \"foo\"\n)");
    assert_eq!(out, vec!["LEFT_PAREN ( null", "STRING \"foo\" foo", "RIGHT_PAREN ) null", "EOF  null"]);
    assert!(err.is_empty());
    assert_eq!(code, 0);
}

#[test]
fn variable_declaration() {
    let (out, err, code) = run("var x = 42;");
    assert_eq!(
        out,
        vec![
            "VAR var null",
            "IDENTIFIER x null",
            "EQUAL = null",
            "NUMBER 42 42.0",
            "SEMICOLON ; null",
            "EOF  null",
        ]
    );
    assert!(err.is_empty());
    assert_eq!(code, 0);
}

#[test]
fn paired_operators_and_trailing_comment() {
    let (out, err, code) = run("!= == <= >= // trailing\n!");
    assert_eq!(
        out,
        vec![
            "BANG_EQUAL != null",
            "EQUAL_EQUAL == null",
            "LESS_EQUAL <= null",
            "GREATER_EQUAL >= null",
            "BANG ! null",
            "EOF  null",
        ]
    );
    assert!(err.is_empty());
    assert_eq!(code, 0);
}

#[test]
fn unexpected_characters_and_unterminated_string() {
    let (out, err, code) = run("@#$\n\"oops");
    assert_eq!(
        err,
        vec![
            "[line 1] Error: Unexpected character: @",
            "[line 1] Error: Unexpected character: #",
            "[line 1] Error: Unexpected character: $",
            "[line 2] Error: Unterminated string.",
        ]
    );
    assert_eq!(out, vec!["EOF  null"]);
    assert_eq!(out.last().unwrap(), "EOF  null");
    assert_eq!(code, 65);
}

#[test]
fn empty_source_lists_only_the_end() {
    let (out, err, code) = run("");
    assert_eq!(out, vec!["EOF  null"]);
    assert!(err.is_empty());
    assert_eq!(code, 0);
}

#[test]
fn every_punctuator() {
    let out = tokenize("(){}*,+-;./");
    assert_eq!(
        out.tokens,
        vec![
            Token::LeftParentheses,
            Token::RightParentheses,
            Token::LeftBrace,
            Token::RightBrace,
            Token::Star,
            Token::Comma,
            Token::Plus,
            Token::Minus,
            Token::SemiColumn,
            Token::Dot,
            Token::Slash,
        ]
    );
    let (lines, _, _) = run("(){}*,+-;./");
    assert_eq!(
        lines,
        vec![
            "LEFT_PAREN ( null",
            "RIGHT_PAREN ) null",
            "LEFT_BRACE { null",
            "RIGHT_BRACE } null",
            "STAR * null",
            "COMMA , null",
            "PLUS + null",
            "MINUS - null",
            "SEMICOLON ; null",
            "DOT . null",
            "SLASH / null",
            "EOF  null",
        ]
    );
}

#[test]
fn single_and_paired_operators() {
    let out = tokenize("= == ! != < <= > >=");
    assert_eq!(
        out.tokens,
        vec![
            Token::Equal,
            Token::EqualEqual,
            Token::Bang,
            Token::BangEqual,
            Token::Less,
            Token::LessEqual,
            Token::Greater,
            Token::GreaterEqual,
        ]
    );
    let (lines, _, _) = run("= ! < >");
    assert_eq!(lines, vec!["EQUAL = null", "BANG ! null", "LESS < null", "GREATER > null", "EOF  null"]);
}

#[test]
fn operators_munch_the_longest() {
    let out = tokenize("===!==<==>==");
    assert_eq!(
        out.tokens,
        vec![
            Token::EqualEqual,
            Token::Equal,
            Token::BangEqual,
            Token::Equal,
            Token::LessEqual,
            Token::Equal,
            Token::GreaterEqual,
            Token::Equal,
        ]
    );
}

#[test]
fn reserved_words_are_named_in_upper_case() {
    let words = [
        "and", "class", "else", "false", "for", "fun", "if", "nil", "or", "print", "return",
        "super", "this", "true", "var", "while",
    ];
    for w in words {
        let (lines, err, code) = run(w);
        assert_eq!(lines, vec![format!("{} {} null", w.to_uppercase(), w), "EOF  null".to_string()]);
        assert!(err.is_empty());
        assert_eq!(code, 0);
        assert!(Lexer::is_reserved_word(w));
    }
}

#[test]
fn reserved_words_match_exactly() {
    let out = tokenize("Var VAR var variable va _var var_ nil0");
    assert_eq!(
        out.tokens,
        vec![
            ident("Var"),
            ident("VAR"),
            word("var"),
            ident("variable"),
            ident("va"),
            ident("_var"),
            ident("var_"),
            ident("nil0"),
        ]
    );
    assert!(!Lexer::is_reserved_word("Var"));
    assert!(!Lexer::is_reserved_word(""));
    assert!(!Lexer::is_reserved_word("whil"));
    assert!(!Lexer::is_reserved_word("while "));
}

#[test]
fn an_identifier_alone_gives_one_identifier_line() {
    for name in ["x", "_", "_1", "foo_bar2", "Z9", "camelCase", "__init__", "a1b2c3"] {
        let (lines, err, code) = run(name);
        assert_eq!(lines, vec![format!("IDENTIFIER {} null", name), "EOF  null".to_string()]);
        assert!(err.is_empty());
        assert_eq!(code, 0);
    }
}

#[test]
fn letters_outside_ascii_make_identifiers() {
    let out = tokenize("caf\u{e9} \u{3b1}\u{3b2}1 x\u{663}");
    assert_eq!(out.tokens, vec![ident("caf\u{e9}"), ident("\u{3b1}\u{3b2}1"), ident("x\u{663}")]);
    assert_eq!(out.exit_code, 0);
}

#[test]
fn symbols_outside_ascii_make_nothing() {
    // An arrow and a digit of another script are neither letters nor the digits 0 to 9.
    let out = tokenize("a \u{2192} b \u{663} c\u{2192}d");
    assert_eq!(out.tokens, vec![ident("a"), ident("b"), ident("c"), ident("d")]);
    assert!(out.errors.is_empty());
    assert_eq!(out.exit_code, 0);
}

#[test]
fn numbers_keep_their_lexeme() {
    let (lines, _, code) = run("42 12.50 0.1 007 3.000 1234.5678");
    assert_eq!(
        lines,
        vec![
            "NUMBER 42 42.0",
            "NUMBER 12.50 12.5",
            "NUMBER 0.1 0.1",
            "NUMBER 007 7.0",
            "NUMBER 3.000 3.0",
            "NUMBER 1234.5678 1234.5678",
            "EOF  null",
        ]
    );
    assert_eq!(code, 0);
}

#[test]
fn a_leading_point_is_a_dot() {
    let out = tokenize(".5");
    assert_eq!(out.tokens, vec![Token::Dot, number("5")]);
}

#[test]
fn a_trailing_point_is_a_dot() {
    let out = tokenize("1.");
    assert_eq!(out.tokens, vec![number("1"), Token::Dot]);
    let out = tokenize("1.x");
    assert_eq!(out.tokens, vec![number("1"), Token::Dot, ident("x")]);
}

#[test]
fn a_number_has_one_point_at_most() {
    let out = tokenize("1.2.3");
    assert_eq!(out.tokens, vec![number("1.2"), Token::Dot, number("3")]);
    let out = tokenize("1..2");
    assert_eq!(out.tokens, vec![number("1"), Token::Dot, Token::Dot, number("2")]);
    assert_eq!(out.exit_code, 0);
}

#[test]
fn a_number_ends_where_letters_begin() {
    let out = tokenize("12abc");
    assert_eq!(out.tokens, vec![number("12"), ident("abc")]);
}

#[test]
fn strings_keep_their_raw_contents() {
    let (lines, err, code) = run("\"a b\" \"\" \"x\\n\" \"// no comment\" \"@\"");
    assert_eq!(
        lines,
        vec![
            "STRING \"a b\" a b",
            "STRING \"\" ",
            "STRING \"x\\n\" x\\n",
            "STRING \"// no comment\" // no comment",
            "STRING \"@\" @",
            "EOF  null",
        ]
    );
    assert!(err.is_empty());
    assert_eq!(code, 0);
}

#[test]
fn a_string_may_span_lines() {
    let out = tokenize("\"one\ntwo\"\n@");
    assert_eq!(out.tokens, vec![Token::String("one\ntwo".to_string())]);
    assert_eq!(
        out.errors,
        vec![LexError { line: 3, offset: 10, kind: LexErrorKind::UnexpectedCharacter('@') }]
    );
    assert_eq!(out.exit_code, 65);
}

#[test]
fn an_unterminated_string_ends_the_stream() {
    let out = tokenize("a \"oops\nb c");
    assert_eq!(out.tokens, vec![ident("a")]);
    assert_eq!(
        out.errors,
        vec![LexError { line: 2, offset: 11, kind: LexErrorKind::UnterminatedString }]
    );
    assert_eq!(out.exit_code, 65);
    let (lines, err, _) = run("a \"oops\nb c");
    assert_eq!(lines, vec!["IDENTIFIER a null", "EOF  null"]);
    assert_eq!(err, vec!["[line 2] Error: Unterminated string."]);
}

#[test]
fn a_quote_alone_is_unterminated() {
    let out = tokenize("\"");
    assert!(out.tokens.is_empty());
    assert_eq!(
        out.errors,
        vec![LexError { line: 1, offset: 1, kind: LexErrorKind::UnterminatedString }]
    );
    assert_eq!(out.exit_code, 65);
}

#[test]
fn every_blacklisted_character_is_reported() {
    let out = tokenize("$#@^%");
    assert!(out.tokens.is_empty());
    let found: Vec<char> = out
        .errors
        .iter()
        .map(|e| match e.kind {
            LexErrorKind::UnexpectedCharacter(c) => c,
            LexErrorKind::UnterminatedString => panic!("no string was opened"),
        })
        .collect();
    assert_eq!(found, vec!['$', '#', '@', '^', '%']);
    assert_eq!(out.exit_code, 65);
    for c in ['$', '#', '@', '^', '%'] {
        assert!(Lexer::is_blacklisted(c));
    }
    for c in ['a', '0', ' ', '&', '?', '"', '/', '\n'] {
        assert!(!Lexer::is_blacklisted(c));
    }
}

#[test]
fn scanning_goes_on_after_an_unexpected_character() {
    let (lines, err, code) = run(",.$(#");
    assert_eq!(lines, vec!["COMMA , null", "DOT . null", "LEFT_PAREN ( null", "EOF  null"]);
    assert_eq!(
        err,
        vec!["[line 1] Error: Unexpected character: $", "[line 1] Error: Unexpected character: #"]
    );
    assert_eq!(code, 65);
}

#[test]
fn other_characters_are_passed_over_in_silence() {
    let out = tokenize("a ? b & c | d ~ e : f [ g ] h ' i \\ j");
    assert_eq!(
        out.tokens,
        vec![
            ident("a"),
            ident("b"),
            ident("c"),
            ident("d"),
            ident("e"),
            ident("f"),
            ident("g"),
            ident("h"),
            ident("i"),
            ident("j"),
        ]
    );
    assert!(out.errors.is_empty());
    assert_eq!(out.exit_code, 0);
}

#[test]
fn whitespace_separates_and_is_dropped() {
    let out = tokenize(" \t\r\n a\tb\rc\nd  ");
    assert_eq!(out.tokens, vec![ident("a"), ident("b"), ident("c"), ident("d")]);
    assert_eq!(out.exit_code, 0);
}

#[test]
fn comments_run_to_the_end_of_the_line() {
    let out = tokenize("a // b c @ \"\n// whole line\nd / e // last");
    assert_eq!(out.tokens, vec![ident("a"), ident("d"), Token::Slash, ident("e")]);
    assert!(out.errors.is_empty());
    assert_eq!(out.exit_code, 0);
    let out = tokenize("//");
    assert!(out.tokens.is_empty());
    let out = tokenize("/");
    assert_eq!(out.tokens, vec![Token::Slash]);
    let out = tokenize("///\n/");
    assert_eq!(out.tokens, vec![Token::Slash]);
}

#[test]
fn error_lines_count_the_newlines_before_the_error() {
    let source = "@\n\n#\n// $\n\"a\nb\" %\n\n\n^";
    let out = tokenize(source);
    let chars: Vec<char> = source.chars().collect();
    assert_eq!(out.errors.len(), 4);
    for error in &out.errors {
        let before = chars[..error.offset].iter().filter(|c| **c == '\n').count();
        assert_eq!(error.line, 1 + before);
        match error.kind {
            LexErrorKind::UnexpectedCharacter(c) => assert_eq!(chars[error.offset], c),
            LexErrorKind::UnterminatedString => assert_eq!(error.offset, chars.len()),
        }
    }
    let lines: Vec<usize> = out.errors.iter().map(|e| e.line).collect();
    assert_eq!(lines, vec![1, 3, 6, 9]);
}

#[test]
fn line_numbers_have_all_their_digits() {
    let mut source = "\n".repeat(11);
    source.push('@');
    source.push_str(&"\n".repeat(1000 - 11 - 1));
    source.push('#');
    source.push_str("\n\"");
    let (_, err, code) = run(&source);
    assert_eq!(
        err,
        vec![
            "[line 12] Error: Unexpected character: @",
            "[line 1000] Error: Unexpected character: #",
            "[line 1001] Error: Unterminated string.",
        ]
    );
    assert_eq!(code, 65);
    let zero = LexError { line: 0, offset: 0, kind: LexErrorKind::UnterminatedString };
    assert_eq!(zero.message(), "[line 0] Error: Unterminated string.");
    let ten = LexError { line: 10, offset: 0, kind: LexErrorKind::UnexpectedCharacter('%') };
    assert_eq!(ten.message(), "[line 10] Error: Unexpected character: %");
    let big = LexError { line: 9_876_543_210, offset: 0, kind: LexErrorKind::UnterminatedString };
    assert_eq!(big.message(), "[line 9876543210] Error: Unterminated string.");
}

#[test]
fn the_listing_always_ends_with_eof() {
    for source in ["", "1", "\"open", "@", "a b c", "// only a comment", "(\n)", "\"x\" \"y"] {
        let (lines, _, _) = run(source);
        assert_eq!(lines.last().unwrap(), "EOF  null");
        assert_eq!(lines.len(), tokenize(source).tokens.len() + 1);
    }
}

#[test]
fn exit_code_zero_means_no_error_line() {
    for source in ["", "var x = 1;", "a ? b", "\"s\" // c", "@", "x $ y", "\"", "1 + \"2"] {
        let (_, err, code) = run(source);
        assert!(code == 0 || code == 65);
        assert_eq!(code == 0, err.is_empty());
        for line in &err {
            assert!(line.starts_with("[line "));
            assert!(line.contains("] Error: "));
        }
    }
}

#[test]
fn lexemes_and_gaps_make_up_the_source() {
    // Without whitespace, comments or errors the lexemes alone are the source.
    let source = "var(x)=\"a b\"+12.50/y2;{!x<=_z}.nil";
    let out = tokenize(source);
    let joined: String = out.tokens.iter().map(|t| t.lexeme()).collect();
    assert_eq!(joined, source);

    // With them, the lexemes stand in the source in order, and what lies
    // between them holds no character of a token.
    let source = " a  + // c\n \"s t\" @ 1.5 ? b";
    let out = tokenize(source);
    let mut rest = source;
    let mut gaps = String::new();
    for token in &out.tokens {
        let lexeme = token.lexeme();
        let at = rest.find(&lexeme).unwrap();
        gaps.push_str(&rest[..at]);
        rest = &rest[at + lexeme.len()..];
    }
    gaps.push_str(rest);
    assert_eq!(gaps, "    // c\n  @  ? ");
}

#[test]
fn a_token_gives_its_kind_lexeme_and_line() {
    let token = Token::String("hi".to_string());
    assert_eq!(token.kind_name(), "STRING");
    assert_eq!(token.lexeme(), "\"hi\"");
    assert_eq!(token.line("ignored"), "STRING \"hi\" hi");
    let token = number("1.50");
    assert_eq!(token.kind_name(), "NUMBER");
    assert_eq!(token.lexeme(), "1.50");
    assert_eq!(token.line("1.5"), "NUMBER 1.50 1.5");
    let token = word("while");
    assert_eq!(token.kind_name(), "WHILE");
    assert_eq!(token.lexeme(), "while");
    assert_eq!(token.line(""), "WHILE while null");
    let token = Token::GreaterEqual;
    assert_eq!(token.kind_name(), "GREATER_EQUAL");
    assert_eq!(token.lexeme(), ">=");
    assert_eq!(token.line("9"), "GREATER_EQUAL >= null");
}

#[test]
fn a_number_without_a_value_has_an_empty_third_field() {
    let tokens = vec![number("1"), ident("x"), number("2")];
    let values = vec!["1.0".to_string()];
    assert_eq!(
        token_lines(&tokens, &values),
        vec!["NUMBER 1 1.0", "IDENTIFIER x null", "NUMBER 2 ", "EOF  null"]
    );
}

#[test]
fn the_scanner_hands_out_one_token_at_a_time() {
    let mut lexer = Lexer::new("a\n@ 1\n");
    assert_eq!(lexer.line(), 1);
    assert_eq!(lexer.exit_code(), 0);
    assert_eq!(lexer.current(), Some('a'));
    assert_eq!(lexer.next_token(), Some(ident("a")));
    assert_eq!(lexer.current(), Some('\n'));
    assert_eq!(lexer.line(), 1);
    assert_eq!(lexer.exit_code(), 0);
    assert_eq!(lexer.next_token(), Some(number("1")));
    assert_eq!(lexer.line(), 2);
    assert_eq!(lexer.exit_code(), 65);
    assert_eq!(
        lexer.errors(),
        &vec![LexError { line: 2, offset: 2, kind: LexErrorKind::UnexpectedCharacter('@') }]
    );
    assert_eq!(lexer.next_token(), None);
    assert_eq!(lexer.line(), 3);
    assert_eq!(lexer.current(), None);
    assert_eq!(lexer.next_token(), None);
    assert_eq!(lexer.exit_code(), 65);
    assert_eq!(lexer.errors().len(), 1);
}

#[test]
fn the_cursor_moves_by_character() {
    let mut lexer = Lexer::new("\n \t\nx\"s\"12.5.");
    assert_eq!(lexer.current(), Some('\n'));
    lexer.read_char();
    assert_eq!(lexer.line(), 2);
    assert_eq!(lexer.current(), Some(' '));
    lexer.skip_whitespace();
    assert_eq!(lexer.line(), 3);
    assert_eq!(lexer.current(), Some('x'));
    lexer.skip_whitespace();
    assert_eq!(lexer.current(), Some('x'));
    assert_eq!(lexer.read_identifier(), ident("x"));
    assert_eq!(lexer.read_string(), Ok(Token::String("s".to_string())));
    assert_eq!(lexer.read_number(), number("12.5"));
    assert_eq!(lexer.current(), Some('.'));
    lexer.read_char();
    assert_eq!(lexer.current(), None);
    lexer.read_char();
    assert_eq!(lexer.current(), None);
    assert_eq!(lexer.line(), 3);
    assert_eq!(lexer.collect(), Vec::<Token>::new());
}

#[test]
fn reading_an_open_string_returns_the_error() {
    let mut lexer = Lexer::new("\"a\nb");
    assert_eq!(
        lexer.read_string(),
        Err(LexError { line: 2, offset: 4, kind: LexErrorKind::UnterminatedString })
    );
    assert_eq!(lexer.current(), None);
    assert!(lexer.errors().is_empty());
    assert_eq!(lexer.exit_code(), 0);
}

#[test]
fn collecting_drains_the_scanner() {
    let mut lexer = Lexer::new("a b $ c");
    assert_eq!(lexer.next_token(), Some(ident("a")));
    assert_eq!(lexer.collect(), vec![ident("b"), ident("c")]);
    assert_eq!(lexer.current(), None);
    assert_eq!(lexer.exit_code(), 65);
    assert_eq!(lexer.errors().len(), 1);
}

//! Tests of the scanner alone: token classification, literal preservation,
//! the eager keyword rule, digit runs and the two lexical errors.

use statlang::classes::{id_check, string_check};
use statlang::lexer::{scan, LexError};
use statlang::token::{Token, TokenEdition};

fn kinds_and_literals(src: &str) -> Vec<(TokenEdition, String)> {
    scan(src)
        .expect("scan should succeed")
        .into_iter()
        .map(|t| (t.kind, t.literal))
        .collect()
}

#[test]
fn token_literals_preserve_program_text() {
    let src = "data: x: number\n\
input: x = read(\"f.csv\", true, 1)\n\
process: m = mean(x)\n\
output: m\n\
end.\n";
    let toks = kinds_and_literals(src);
    let expected = vec![
        (TokenEdition::DATA, "data"),
        (TokenEdition::COLON, ":"),
        (TokenEdition::ID, "x"),
        (TokenEdition::COLON, ":"),
        (TokenEdition::NUMBER, "number"),
        (TokenEdition::INPUT, "input"),
        (TokenEdition::COLON, ":"),
        (TokenEdition::ID, "x"),
        (TokenEdition::ASSIGN, "="),
        (TokenEdition::READ, "read"),
        (TokenEdition::LPAREN, "("),
        (TokenEdition::STRING, "\"f.csv\""),
        (TokenEdition::COMMA, ","),
        (TokenEdition::TRUE, "true"),
        (TokenEdition::COMMA, ","),
        (TokenEdition::NUM, "1"),
        (TokenEdition::RPAREN, ")"),
        (TokenEdition::PROCESS, "process"),
        (TokenEdition::COLON, ":"),
        (TokenEdition::ID, "m"),
        (TokenEdition::ASSIGN, "="),
        (TokenEdition::MEAN, "mean"),
        (TokenEdition::LPAREN, "("),
        (TokenEdition::ID, "x"),
        (TokenEdition::RPAREN, ")"),
        (TokenEdition::OUTPUT, "output"),
        (TokenEdition::COLON, ":"),
        (TokenEdition::ID, "m"),
        (TokenEdition::END, "end"),
        (TokenEdition::PERIOD, "."),
    ];
    let expected: Vec<(TokenEdition, String)> =
        expected.into_iter().map(|(k, l)| (k, l.to_string())).collect();
    assert_eq!(toks, expected);
}

#[test]
fn multi_digit_number_is_one_token() {
    let toks = kinds_and_literals("x = read(\"f.csv\", true, 407)\n");
    assert!(toks.contains(&(TokenEdition::NUM, "407".to_string())));
    let digit_tokens: Vec<&(TokenEdition, String)> =
        toks.iter().filter(|(k, _)| *k == TokenEdition::NUM).collect();
    assert_eq!(digit_tokens.len(), 1);
}

#[test]
fn string_literal_keeps_spaces_and_delimiters() {
    let toks = kinds_and_literals("\"a b=c-1.\"\n");
    assert_eq!(toks, vec![(TokenEdition::STRING, "\"a b=c-1.\"".to_string())]);
}

#[test]
fn keyword_is_recognized_eagerly_inside_longer_run() {
    // The buffer matches a keyword the instant its last character arrives,
    // so a longer identifier starting with a keyword splits.
    let toks = kinds_and_literals("datax\n");
    assert_eq!(
        toks,
        vec![(TokenEdition::DATA, "data".to_string()), (TokenEdition::ID, "x".to_string())]
    );
}

#[test]
fn uppercase_identifier_before_comma_is_rejected() {
    assert_eq!(scan("Bad,\n").unwrap_err(), LexError::NonLowercaseIdentifier);
}

#[test]
fn uppercase_letter_in_string_is_rejected() {
    assert_eq!(scan("\"Result\"\n").unwrap_err(), LexError::InvalidStringLiteral);
}

#[test]
fn colon_in_string_is_rejected() {
    assert_eq!(scan("\"result:\"\n").unwrap_err(), LexError::InvalidStringLiteral);
}

#[test]
fn empty_string_literal_is_rejected() {
    assert_eq!(scan("\"\"\n").unwrap_err(), LexError::InvalidStringLiteral);
}

#[test]
fn id_check_accepts_lowercase_runs_only() {
    assert!(id_check("abc"));
    assert!(id_check("m"));
    assert!(!id_check(""));
    assert!(!id_check("aBc"));
    assert!(!id_check("a1"));
    assert!(!id_check("x-"));
}

#[test]
fn string_check_enforces_the_allowed_class() {
    assert!(string_check("a b=c-1.x"));
    assert!(string_check("file.csv"));
    assert!(!string_check(""));
    assert!(!string_check("A"));
    assert!(!string_check("result:"));
    assert!(!string_check("semi;colon"));
}

#[test]
fn token_new_keeps_kind_and_literal() {
    let t = Token::new(TokenEdition::ID, "abc".to_string());
    assert_eq!(t.kind, TokenEdition::ID);
    assert_eq!(t.literal, "abc");
}

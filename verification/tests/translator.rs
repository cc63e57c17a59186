//! End-to-end tests of the translator: whole programs in, generated lines
//! out, and the exact error on each kind of ill-formed program.

use statlang::parser::{Expectation, ParseError, Store, TranslateError};
use statlang::token::TokenEdition;

fn run(src: &str, flag: &str) -> (Store, Result<(), TranslateError>) {
    let mut store = Store::new(src.to_string(), flag.to_string());
    let r = store.lex_and_parse_source();
    (store, r)
}

const MEAN_PROGRAM: &str = "data: x: number\n\
input: x = read(\"file.csv\", true, 1)\n\
process: m = mean(x)\n\
output: \"result.\", m\n\
end.\n";

#[test]
fn translates_mean_program_scheme() {
    let (store, r) = run(MEAN_PROGRAM, "-s");
    assert_eq!(r, Ok(()));
    let expected = vec![
        "(define x (read-csv \"./file.csv\" #t 1))".to_string(),
        "(define m (mean x))".to_string(),
        "(display \"result.\")".to_string(),
        "(newline)".to_string(),
        "(display m)".to_string(),
    ];
    assert_eq!(store.scheme_lines(), &expected);
    assert_eq!(store.selected_lines(), Some(&expected));
}

#[test]
fn translates_mean_program_prolog() {
    let (store, r) = run(MEAN_PROGRAM, "-p");
    assert_eq!(r, Ok(()));
    let expected = vec![
        "load_data_column('file.csv', true, 1, Vx),".to_string(),
        "mean(Vx, Vm),".to_string(),
        "writeln(\"result.\"),".to_string(),
        "writeln(Vm).".to_string(),
    ];
    assert_eq!(store.pl_lines(), &expected);
    assert_eq!(store.selected_lines(), Some(&expected));
}

#[test]
fn chained_two_argument_process_ops_emit_in_order() {
    let src = "data: x: vector, y: vector\n\
input: x = read(\"in.csv\", false, 2), y = read(\"in.csv\", false, 3)\n\
process: a = correlation(x,y), b = regressionb(x,y)\n\
output: \"done\"\n\
end.\n";
    let (store, r) = run(src, "-s");
    assert_eq!(r, Ok(()));
    assert_eq!(
        store.scheme_lines(),
        &vec![
            "(define x (read-csv \"./in.csv\" #f 2))".to_string(),
            "(define y (read-csv \"./in.csv\" #f 3))".to_string(),
            "(define a (correlation x y))".to_string(),
            "(define b (regressionb x y))".to_string(),
            "(display \"done\")".to_string(),
        ]
    );
    assert_eq!(
        store.pl_lines(),
        &vec![
            "load_data_column('in.csv', false, 2, Vx),".to_string(),
            "load_data_column('in.csv', false, 3, Vy),".to_string(),
            "correlation(Vx, Vy, Va),".to_string(),
            "regressionb(Vx, Vy, Vb),".to_string(),
            "writeln(\"done\").".to_string(),
        ]
    );
}

#[test]
fn translation_is_idempotent() {
    let (store1, r1) = run(MEAN_PROGRAM, "-s");
    let (store2, r2) = run(MEAN_PROGRAM, "-s");
    assert_eq!(r1, Ok(()));
    assert_eq!(r2, Ok(()));
    assert_eq!(store1.scheme_lines(), store2.scheme_lines());
    assert_eq!(store1.pl_lines(), store2.pl_lines());
}

#[test]
fn mean_with_two_arguments_is_rejected() {
    let src = "data: x: number\n\
input: x = read(\"f.csv\", true, 1)\n\
process: m = mean(x,y)\n";
    let (_, r) = run(src, "-s");
    assert_eq!(
        r,
        Err(TranslateError::Grammatical(ParseError::WrongToken {
            expected: Expectation::Kind(TokenEdition::RPAREN),
            found: TokenEdition::COMMA,
        }))
    );
}

#[test]
fn stddev_with_two_arguments_is_rejected() {
    let src = "data: x: number\n\
input: x = read(\"f.csv\", true, 1)\n\
process: s = stddev(x,y)\n";
    let (_, r) = run(src, "-s");
    assert_eq!(
        r,
        Err(TranslateError::Grammatical(ParseError::WrongToken {
            expected: Expectation::Kind(TokenEdition::RPAREN),
            found: TokenEdition::COMMA,
        }))
    );
}

#[test]
fn correlation_with_one_argument_is_rejected() {
    let src = "data: x: vector\n\
input: x = read(\"f.csv\", true, 1)\n\
process: a = correlation(xs)\n";
    let (_, r) = run(src, "-s");
    assert_eq!(
        r,
        Err(TranslateError::Grammatical(ParseError::WrongToken {
            expected: Expectation::Kind(TokenEdition::COMMA),
            found: TokenEdition::RPAREN,
        }))
    );
}

#[test]
fn regressiona_with_one_argument_is_rejected() {
    let src = "data: x: vector\n\
input: x = read(\"f.csv\", true, 1)\n\
process: a = regressiona(xs)\n";
    let (_, r) = run(src, "-s");
    assert_eq!(
        r,
        Err(TranslateError::Grammatical(ParseError::WrongToken {
            expected: Expectation::Kind(TokenEdition::COMMA),
            found: TokenEdition::RPAREN,
        }))
    );
}

#[test]
fn regressionb_with_one_argument_is_rejected() {
    let src = "data: x: vector\n\
input: x = read(\"f.csv\", true, 1)\n\
process: a = regressionb(xs)\n";
    let (_, r) = run(src, "-s");
    assert_eq!(
        r,
        Err(TranslateError::Grammatical(ParseError::WrongToken {
            expected: Expectation::Kind(TokenEdition::COMMA),
            found: TokenEdition::RPAREN,
        }))
    );
}

#[test]
fn missing_end_fails_with_end_expectation() {
    let src = "data: x: number\n\
input: x = read(\"f.csv\", true, 1)\n\
process: m = mean(x)\n\
output: m\n";
    let (_, r) = run(src, "-s");
    assert_eq!(
        r,
        Err(TranslateError::Grammatical(ParseError::OutOfTokens {
            expected: Expectation::Kind(TokenEdition::END),
        }))
    );
}

#[test]
fn missing_period_fails_with_period_expectation() {
    let src = "data: x: number\n\
input: x = read(\"f.csv\", true, 1)\n\
process: m = mean(x)\n\
output: m\n\
end\n";
    let (_, r) = run(src, "-s");
    assert_eq!(
        r,
        Err(TranslateError::Grammatical(ParseError::OutOfTokens {
            expected: Expectation::Kind(TokenEdition::PERIOD),
        }))
    );
}

#[test]
fn empty_source_fails_with_data_expectation() {
    let (_, r) = run("", "-s");
    assert_eq!(
        r,
        Err(TranslateError::Grammatical(ParseError::OutOfTokens {
            expected: Expectation::Kind(TokenEdition::DATA),
        }))
    );
}

#[test]
fn wrong_type_keyword_is_rejected() {
    let src = "data: x: foo\n";
    let (_, r) = run(src, "-s");
    assert_eq!(
        r,
        Err(TranslateError::Grammatical(ParseError::WrongToken {
            expected: Expectation::TypeKeyword,
            found: TokenEdition::ID,
        }))
    );
}

#[test]
fn invalid_identifier_at_use_is_rejected() {
    let src = "data: x: number\n\
input: x = read(\"f.csv\", true, 1)\n\
process: m = mean(x-)\n";
    let (_, r) = run(src, "-s");
    assert_eq!(r, Err(TranslateError::Grammatical(ParseError::InvalidIdentifier)));
}

#[test]
fn unknown_statistic_function_is_rejected() {
    // The scanner discards whatever stood before a parenthesis, so an
    // unknown function name leaves the parenthesis itself in statistic
    // position.
    let src = "data: x: number\n\
input: x = read(\"f.csv\", true, 1)\n\
process: m = foo(x)\n";
    let (_, r) = run(src, "-s");
    assert_eq!(
        r,
        Err(TranslateError::Grammatical(ParseError::WrongToken {
            expected: Expectation::StatFn,
            found: TokenEdition::LPAREN,
        }))
    );
}

#[test]
fn non_boolean_read_argument_is_rejected() {
    let src = "data: x: number\n\
input: x = read(\"f.csv\", maybe, 1)\n";
    let (_, r) = run(src, "-s");
    assert_eq!(
        r,
        Err(TranslateError::Grammatical(ParseError::WrongToken {
            expected: Expectation::BoolLiteral,
            found: TokenEdition::ID,
        }))
    );
}

#[test]
fn empty_output_term_is_rejected() {
    let src = "data: x: number\n\
input: x = read(\"f.csv\", true, 1)\n\
process: m = mean(x)\n\
output: , m\n\
end.\n";
    let (_, r) = run(src, "-s");
    assert_eq!(
        r,
        Err(TranslateError::Grammatical(ParseError::WrongToken {
            expected: Expectation::OutputTerm,
            found: TokenEdition::COMMA,
        }))
    );
}

#[test]
fn unknown_dialect_flag_selects_nothing() {
    let (store, r) = run(MEAN_PROGRAM, "-x");
    assert_eq!(r, Ok(()));
    assert_eq!(store.selected_lines(), None);
}

#[test]
fn manip_pl_string_swaps_delimiters() {
    let store = Store::new(String::new(), String::new());
    assert_eq!(store.manip_pl_string(&"\"abc.csv\"".to_string()), "'abc.csv'");
}

#[test]
fn manip_scheme_string_prefixes_relative_path() {
    let store = Store::new(String::new(), String::new());
    assert_eq!(store.manip_scheme_string(&"\"abc.csv\"".to_string()), "\"./abc.csv\"");
}

#[test]
fn fresh_store_has_empty_buffers() {
    let store = Store::new("data:".to_string(), "-s".to_string());
    assert!(store.scheme_lines().is_empty());
    assert!(store.pl_lines().is_empty());
}

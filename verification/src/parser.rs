//! The grammar validator: a recursive-descent recognizer over the token
//! sequence that, as each production is recognized, appends one generated
//! line to each of the two output buffers.
//!
//! The spec functions `sp_data_def` .. `sp_program` state, production by
//! production, which token shapes are accepted, which error is returned
//! otherwise, and the exact text of every emitted line; each executable
//! method is proved to compute exactly their result. `spec_translate`
//! composes the scanner and the validator into one function from source
//! text to the pair of output buffers.

use vstd::prelude::*;

use crate::classes::{id_check, is_valid_id};
use crate::lexer::{scan, spec_scan, LexError};
use crate::token::{
    lemma_lines_view_push, lines_view, toks_view, Token, TokenEdition, TokenV,
};

verus! {

/// What the validator was owed at the point of a grammatical error.
#[derive(Debug, PartialEq, Eq, Clone, Copy, Structural)]
pub enum Expectation {
    /// One definite token kind.
    Kind(TokenEdition),
    /// A type keyword: `number` or `vector`.
    TypeKeyword,
    /// One of the five statistic-function keywords.
    StatFn,
    /// A boolean literal: `true` or `false`.
    BoolLiteral,
    /// An output term: a string literal or an identifier.
    OutputTerm,
}

/// A failure of syntax checking: the first mismatch aborts the translation.
#[derive(Debug, PartialEq, Eq, Clone, Copy, Structural)]
pub enum ParseError {
    /// The token sequence ended where another token was owed.
    OutOfTokens { expected: Expectation },
    /// The next token's kind does not match the production.
    WrongToken { expected: Expectation, found: TokenEdition },
    /// An identifier at its grammatical use is not one or more lowercase
    /// letters.
    InvalidIdentifier,
}

/// Any failure of a whole translation: lexical or grammatical.
#[derive(Debug, PartialEq, Eq, Clone, Copy, Structural)]
pub enum TranslateError {
    Lexical(LexError),
    Grammatical(ParseError),
}

/// A string literal rewritten for the Prolog-like dialect: both double-quote
/// delimiters are swapped for single quotes. On a literal shorter than two
/// characters (never produced by the scanner) only one quote remains.
pub open spec fn pl_string_of(v: Seq<char>) -> Seq<char> {
    if v.len() < 2 {
        "'"@
    } else {
        "'"@ + v.subrange(1, v.len() - 1) + "'"@
    }
}

/// A string literal rewritten for the Scheme-like dialect: the opening
/// quote is stripped and a relative-path marker is prefixed.
pub open spec fn scheme_string_of(v: Seq<char>) -> Seq<char> {
    if v.len() < 1 {
        "\"./"@
    } else {
        "\"./"@ + v.subrange(1, v.len() as int)
    }
}

/// The statistic functions of arity one.
pub open spec fn one_arg_stat(k: TokenEdition) -> bool {
    k == TokenEdition::MEAN || k == TokenEdition::STDDEV
}

/// The statistic functions of arity two.
pub open spec fn two_arg_stat(k: TokenEdition) -> bool {
    k == TokenEdition::CORRELATION || k == TokenEdition::REGRESSIONA
        || k == TokenEdition::REGRESSIONB
}

/// The Scheme-like line of an input-op starting at current position i.
pub open spec fn scheme_input_line(t: Seq<TokenV>, i: int) -> Seq<char> {
    "(define "@ + t[i + 1].lit + " (read-csv "@ + scheme_string_of(t[i + 5].lit) + (
    if t[i + 7].kind == TokenEdition::TRUE {
        " #t "@
    } else {
        " #f "@
    }) + t[i + 9].lit + "))"@
}

/// The Prolog-like line of an input-op starting at current position i.
pub open spec fn pl_input_line(t: Seq<TokenV>, i: int) -> Seq<char> {
    "load_data_column("@ + pl_string_of(t[i + 5].lit) + t[i + 6].lit + " "@ + t[i + 7].lit + t[i
        + 8].lit + " "@ + t[i + 9].lit + ", V"@ + t[i + 1].lit + t[i + 10].lit + ","@
}

/// The Scheme-like line of a one-argument process-op.
pub open spec fn scheme_process_line_one(t: Seq<TokenV>, i: int) -> Seq<char> {
    "(define "@ + t[i + 1].lit + " ("@ + t[i + 3].lit + " "@ + t[i + 5].lit + "))"@
}

/// The Scheme-like line of a two-argument process-op.
pub open spec fn scheme_process_line_two(t: Seq<TokenV>, i: int) -> Seq<char> {
    "(define "@ + t[i + 1].lit + " ("@ + t[i + 3].lit + " "@ + t[i + 5].lit + " "@ + t[i
        + 7].lit + "))"@
}

/// The Prolog-like line of a one-argument process-op.
pub open spec fn pl_process_line_one(t: Seq<TokenV>, i: int) -> Seq<char> {
    t[i + 3].lit + t[i + 4].lit + "V"@ + t[i + 5].lit + ", "@ + "V"@ + t[i + 1].lit + "),"@
}

/// The Prolog-like line of a two-argument process-op.
pub open spec fn pl_process_line_two(t: Seq<TokenV>, i: int) -> Seq<char> {
    t[i + 3].lit + t[i + 4].lit + "V"@ + t[i + 5].lit + ", "@ + "V"@ + t[i + 7].lit + ", "@
        + "V"@ + t[i + 1].lit + "),"@
}

/// The Scheme-like line of an output-op.
pub open spec fn scheme_output_line(t: Seq<TokenV>, i: int) -> Seq<char> {
    "(display "@ + t[i + 1].lit + ")"@
}

/// The Prolog-like line of an output-op: the clause ends with a period
/// before `end`, with a comma otherwise.
pub open spec fn pl_output_line(t: Seq<TokenV>, i: int) -> Seq<char> {
    "writeln("@ + (if t[i + 1].kind == TokenEdition::ID {
        "V"@ + t[i + 1].lit
    } else {
        t[i + 1].lit
    }) + (if t[i + 2].kind == TokenEdition::END {
        ")."@
    } else {
        "),"@
    })
}

/// data-def := identifier ":" ("number" | "vector"), consumed from current
/// position i; on success the new current position (its last token).
pub open spec fn sp_data_def(t: Seq<TokenV>, i: int) -> Result<int, ParseError> {
    if i + 1 >= t.len() {
        Err(ParseError::OutOfTokens { expected: Expectation::Kind(TokenEdition::ID) })
    } else if t[i + 1].kind != TokenEdition::ID {
        Err(
            ParseError::WrongToken {
                expected: Expectation::Kind(TokenEdition::ID),
                found: t[i + 1].kind,
            },
        )
    } else if !is_valid_id(t[i + 1].lit) {
        Err(ParseError::InvalidIdentifier)
    } else if i + 2 >= t.len() {
        Err(ParseError::OutOfTokens { expected: Expectation::Kind(TokenEdition::COLON) })
    } else if t[i + 2].kind != TokenEdition::COLON {
        Err(
            ParseError::WrongToken {
                expected: Expectation::Kind(TokenEdition::COLON),
                found: t[i + 2].kind,
            },
        )
    } else if i + 3 >= t.len() {
        Err(ParseError::OutOfTokens { expected: Expectation::TypeKeyword })
    } else if t[i + 3].kind != TokenEdition::NUMBER && t[i + 3].kind != TokenEdition::VECTOR {
        Err(ParseError::WrongToken { expected: Expectation::TypeKeyword, found: t[i + 3].kind })
    } else {
        Ok(i + 3)
    }
}

/// After one data-def: while a comma follows, another data-def; otherwise
/// the `input` section keyword and its colon close the section.
pub open spec fn sp_data_defs_rest(t: Seq<TokenV>, i: int) -> Result<int, ParseError>
    decreases t.len() - i,
{
    if i + 1 >= t.len() {
        Err(ParseError::OutOfTokens { expected: Expectation::Kind(TokenEdition::INPUT) })
    } else if t[i + 1].kind == TokenEdition::COMMA {
        match sp_data_def(t, i + 1) {
            Ok(j) => sp_data_defs_rest(t, j),
            Err(e) => Err(e),
        }
    } else if t[i + 1].kind != TokenEdition::INPUT {
        Err(
            ParseError::WrongToken {
                expected: Expectation::Kind(TokenEdition::INPUT),
                found: t[i + 1].kind,
            },
        )
    } else if i + 2 >= t.len() {
        Err(ParseError::OutOfTokens { expected: Expectation::Kind(TokenEdition::COLON) })
    } else if t[i + 2].kind != TokenEdition::COLON {
        Err(
            ParseError::WrongToken {
                expected: Expectation::Kind(TokenEdition::COLON),
                found: t[i + 2].kind,
            },
        )
    } else {
        Ok(i + 2)
    }
}

/// data-defs := data-def ("," data-def)*, closed by `input` ":".
pub open spec fn sp_data_defs(t: Seq<TokenV>, i: int) -> Result<int, ParseError> {
    match sp_data_def(t, i) {
        Ok(j) => sp_data_defs_rest(t, j),
        Err(e) => Err(e),
    }
}

/// input-op := identifier "=" "read" "(" string "," bool "," number ")";
/// on success the new current position and the two emitted lines.
pub open spec fn sp_input_op(t: Seq<TokenV>, i: int) -> Result<
    (int, Seq<char>, Seq<char>),
    ParseError,
> {
    if i + 1 >= t.len() {
        Err(ParseError::OutOfTokens { expected: Expectation::Kind(TokenEdition::ID) })
    } else if t[i + 1].kind != TokenEdition::ID {
        Err(
            ParseError::WrongToken {
                expected: Expectation::Kind(TokenEdition::ID),
                found: t[i + 1].kind,
            },
        )
    } else if !is_valid_id(t[i + 1].lit) {
        Err(ParseError::InvalidIdentifier)
    } else if i + 2 >= t.len() {
        Err(ParseError::OutOfTokens { expected: Expectation::Kind(TokenEdition::ASSIGN) })
    } else if t[i + 2].kind != TokenEdition::ASSIGN {
        Err(
            ParseError::WrongToken {
                expected: Expectation::Kind(TokenEdition::ASSIGN),
                found: t[i + 2].kind,
            },
        )
    } else if i + 3 >= t.len() {
        Err(ParseError::OutOfTokens { expected: Expectation::Kind(TokenEdition::READ) })
    } else if t[i + 3].kind != TokenEdition::READ {
        Err(
            ParseError::WrongToken {
                expected: Expectation::Kind(TokenEdition::READ),
                found: t[i + 3].kind,
            },
        )
    } else if i + 4 >= t.len() {
        Err(ParseError::OutOfTokens { expected: Expectation::Kind(TokenEdition::LPAREN) })
    } else if t[i + 4].kind != TokenEdition::LPAREN {
        Err(
            ParseError::WrongToken {
                expected: Expectation::Kind(TokenEdition::LPAREN),
                found: t[i + 4].kind,
            },
        )
    } else if i + 5 >= t.len() {
        Err(ParseError::OutOfTokens { expected: Expectation::Kind(TokenEdition::STRING) })
    } else if t[i + 5].kind != TokenEdition::STRING {
        Err(
            ParseError::WrongToken {
                expected: Expectation::Kind(TokenEdition::STRING),
                found: t[i + 5].kind,
            },
        )
    } else if i + 6 >= t.len() {
        Err(ParseError::OutOfTokens { expected: Expectation::Kind(TokenEdition::COMMA) })
    } else if t[i + 6].kind != TokenEdition::COMMA {
        Err(
            ParseError::WrongToken {
                expected: Expectation::Kind(TokenEdition::COMMA),
                found: t[i + 6].kind,
            },
        )
    } else if i + 7 >= t.len() {
        Err(ParseError::OutOfTokens { expected: Expectation::BoolLiteral })
    } else if t[i + 7].kind != TokenEdition::TRUE && t[i + 7].kind != TokenEdition::FALSE {
        Err(ParseError::WrongToken { expected: Expectation::BoolLiteral, found: t[i + 7].kind })
    } else if i + 8 >= t.len() {
        Err(ParseError::OutOfTokens { expected: Expectation::Kind(TokenEdition::COMMA) })
    } else if t[i + 8].kind != TokenEdition::COMMA {
        Err(
            ParseError::WrongToken {
                expected: Expectation::Kind(TokenEdition::COMMA),
                found: t[i + 8].kind,
            },
        )
    } else if i + 9 >= t.len() {
        Err(ParseError::OutOfTokens { expected: Expectation::Kind(TokenEdition::NUM) })
    } else if t[i + 9].kind != TokenEdition::NUM {
        Err(
            ParseError::WrongToken {
                expected: Expectation::Kind(TokenEdition::NUM),
                found: t[i + 9].kind,
            },
        )
    } else if i + 10 >= t.len() {
        Err(ParseError::OutOfTokens { expected: Expectation::Kind(TokenEdition::RPAREN) })
    } else if t[i + 10].kind != TokenEdition::RPAREN {
        Err(
            ParseError::WrongToken {
                expected: Expectation::Kind(TokenEdition::RPAREN),
                found: t[i + 10].kind,
            },
        )
    } else {
        Ok((i + 10, scheme_input_line(t, i), pl_input_line(t, i)))
    }
}

/// After one input-op: while a comma follows, another input-op; otherwise
/// the `process` section keyword and its colon close the section. Returns
/// the new position and the lines of the remaining ops, in order.
pub open spec fn sp_input_ops_rest(t: Seq<TokenV>, i: int) -> Result<
    (int, Seq<Seq<char>>, Seq<Seq<char>>),
    ParseError,
>
    decreases t.len() - i,
{
    if i + 1 >= t.len() {
        Err(ParseError::OutOfTokens { expected: Expectation::Kind(TokenEdition::PROCESS) })
    } else if t[i + 1].kind == TokenEdition::COMMA {
        match sp_input_op(t, i + 1) {
            Ok((j, s, p)) => match sp_input_ops_rest(t, j) {
                Ok((k, ss, pp)) => Ok((k, seq![s] + ss, seq![p] + pp)),
                Err(e) => Err(e),
            },
            Err(e) => Err(e),
        }
    } else if t[i + 1].kind != TokenEdition::PROCESS {
        Err(
            ParseError::WrongToken {
                expected: Expectation::Kind(TokenEdition::PROCESS),
                found: t[i + 1].kind,
            },
        )
    } else if i + 2 >= t.len() {
        Err(ParseError::OutOfTokens { expected: Expectation::Kind(TokenEdition::COLON) })
    } else if t[i + 2].kind != TokenEdition::COLON {
        Err(
            ParseError::WrongToken {
                expected: Expectation::Kind(TokenEdition::COLON),
                found: t[i + 2].kind,
            },
        )
    } else {
        Ok((i + 2, Seq::empty(), Seq::empty()))
    }
}

/// input-ops := input-op ("," input-op)*, closed by `process` ":".
pub open spec fn sp_input_ops(t: Seq<TokenV>, i: int) -> Result<
    (int, Seq<Seq<char>>, Seq<Seq<char>>),
    ParseError,
> {
    match sp_input_op(t, i) {
        Ok((j, s, p)) => match sp_input_ops_rest(t, j) {
            Ok((k, ss, pp)) => Ok((k, seq![s] + ss, seq![p] + pp)),
            Err(e) => Err(e),
        },
        Err(e) => Err(e),
    }
}

/// process-op := identifier "=" stat-fn "(" identifier ["," identifier] ")",
/// with mean/stddev taking exactly one argument and correlation/regressiona/
/// regressionb exactly two.
pub open spec fn sp_process_op(t: Seq<TokenV>, i: int) -> Result<
    (int, Seq<char>, Seq<char>),
    ParseError,
> {
    if i + 1 >= t.len() {
        Err(ParseError::OutOfTokens { expected: Expectation::Kind(TokenEdition::ID) })
    } else if t[i + 1].kind != TokenEdition::ID {
        Err(
            ParseError::WrongToken {
                expected: Expectation::Kind(TokenEdition::ID),
                found: t[i + 1].kind,
            },
        )
    } else if !is_valid_id(t[i + 1].lit) {
        Err(ParseError::InvalidIdentifier)
    } else if i + 2 >= t.len() {
        Err(ParseError::OutOfTokens { expected: Expectation::Kind(TokenEdition::ASSIGN) })
    } else if t[i + 2].kind != TokenEdition::ASSIGN {
        Err(
            ParseError::WrongToken {
                expected: Expectation::Kind(TokenEdition::ASSIGN),
                found: t[i + 2].kind,
            },
        )
    } else if i + 3 >= t.len() {
        Err(ParseError::OutOfTokens { expected: Expectation::StatFn })
    } else if !one_arg_stat(t[i + 3].kind) && !two_arg_stat(t[i + 3].kind) {
        Err(ParseError::WrongToken { expected: Expectation::StatFn, found: t[i + 3].kind })
    } else if i + 4 >= t.len() {
        Err(ParseError::OutOfTokens { expected: Expectation::Kind(TokenEdition::LPAREN) })
    } else if t[i + 4].kind != TokenEdition::LPAREN {
        Err(
            ParseError::WrongToken {
                expected: Expectation::Kind(TokenEdition::LPAREN),
                found: t[i + 4].kind,
            },
        )
    } else if i + 5 >= t.len() {
        Err(ParseError::OutOfTokens { expected: Expectation::Kind(TokenEdition::ID) })
    } else if t[i + 5].kind != TokenEdition::ID {
        Err(
            ParseError::WrongToken {
                expected: Expectation::Kind(TokenEdition::ID),
                found: t[i + 5].kind,
            },
        )
    } else if !is_valid_id(t[i + 5].lit) {
        Err(ParseError::InvalidIdentifier)
    } else if one_arg_stat(t[i + 3].kind) {
        if i + 6 >= t.len() {
            Err(ParseError::OutOfTokens { expected: Expectation::Kind(TokenEdition::RPAREN) })
        } else if t[i + 6].kind != TokenEdition::RPAREN {
            Err(
                ParseError::WrongToken {
                    expected: Expectation::Kind(TokenEdition::RPAREN),
                    found: t[i + 6].kind,
                },
            )
        } else {
            Ok((i + 6, scheme_process_line_one(t, i), pl_process_line_one(t, i)))
        }
    } else {
        if i + 6 >= t.len() {
            Err(ParseError::OutOfTokens { expected: Expectation::Kind(TokenEdition::COMMA) })
        } else if t[i + 6].kind != TokenEdition::COMMA {
            Err(
                ParseError::WrongToken {
                    expected: Expectation::Kind(TokenEdition::COMMA),
                    found: t[i + 6].kind,
                },
            )
        } else if i + 7 >= t.len() {
            Err(ParseError::OutOfTokens { expected: Expectation::Kind(TokenEdition::ID) })
        } else if t[i + 7].kind != TokenEdition::ID {
            Err(
                ParseError::WrongToken {
                    expected: Expectation::Kind(TokenEdition::ID),
                    found: t[i + 7].kind,
                },
            )
        } else if !is_valid_id(t[i + 7].lit) {
            Err(ParseError::InvalidIdentifier)
        } else if i + 8 >= t.len() {
            Err(ParseError::OutOfTokens { expected: Expectation::Kind(TokenEdition::RPAREN) })
        } else if t[i + 8].kind != TokenEdition::RPAREN {
            Err(
                ParseError::WrongToken {
                    expected: Expectation::Kind(TokenEdition::RPAREN),
                    found: t[i + 8].kind,
                },
            )
        } else {
            Ok((i + 8, scheme_process_line_two(t, i), pl_process_line_two(t, i)))
        }
    }
}

/// After one process-op: while a comma follows, another process-op;
/// otherwise the `output` section keyword and its colon close the section.
pub open spec fn sp_process_ops_rest(t: Seq<TokenV>, i: int) -> Result<
    (int, Seq<Seq<char>>, Seq<Seq<char>>),
    ParseError,
>
    decreases t.len() - i,
{
    if i + 1 >= t.len() {
        Err(ParseError::OutOfTokens { expected: Expectation::Kind(TokenEdition::OUTPUT) })
    } else if t[i + 1].kind == TokenEdition::COMMA {
        match sp_process_op(t, i + 1) {
            Ok((j, s, p)) => match sp_process_ops_rest(t, j) {
                Ok((k, ss, pp)) => Ok((k, seq![s] + ss, seq![p] + pp)),
                Err(e) => Err(e),
            },
            Err(e) => Err(e),
        }
    } else if t[i + 1].kind != TokenEdition::OUTPUT {
        Err(
            ParseError::WrongToken {
                expected: Expectation::Kind(TokenEdition::OUTPUT),
                found: t[i + 1].kind,
            },
        )
    } else if i + 2 >= t.len() {
        Err(ParseError::OutOfTokens { expected: Expectation::Kind(TokenEdition::COLON) })
    } else if t[i + 2].kind != TokenEdition::COLON {
        Err(
            ParseError::WrongToken {
                expected: Expectation::Kind(TokenEdition::COLON),
                found: t[i + 2].kind,
            },
        )
    } else {
        Ok((i + 2, Seq::empty(), Seq::empty()))
    }
}

/// process-ops := process-op ("," process-op)*, closed by `output` ":".
pub open spec fn sp_process_ops(t: Seq<TokenV>, i: int) -> Result<
    (int, Seq<Seq<char>>, Seq<Seq<char>>),
    ParseError,
> {
    match sp_process_op(t, i) {
        Ok((j, s, p)) => match sp_process_ops_rest(t, j) {
            Ok((k, ss, pp)) => Ok((k, seq![s] + ss, seq![p] + pp)),
            Err(e) => Err(e),
        },
        Err(e) => Err(e),
    }
}

/// output-op := string | identifier. The op must see one further token
/// (at the end of the program that is `end`), which decides the
/// Prolog-like clause terminator.
pub open spec fn sp_output_op(t: Seq<TokenV>, i: int) -> Result<
    (int, Seq<char>, Seq<char>),
    ParseError,
> {
    if i + 1 >= t.len() {
        Err(ParseError::OutOfTokens { expected: Expectation::OutputTerm })
    } else if t[i + 1].kind != TokenEdition::STRING && t[i + 1].kind != TokenEdition::ID {
        Err(ParseError::WrongToken { expected: Expectation::OutputTerm, found: t[i + 1].kind })
    } else if t[i + 1].kind == TokenEdition::ID && !is_valid_id(t[i + 1].lit) {
        Err(ParseError::InvalidIdentifier)
    } else if i + 2 >= t.len() {
        Err(ParseError::OutOfTokens { expected: Expectation::Kind(TokenEdition::END) })
    } else {
        Ok((i + 1, scheme_output_line(t, i), pl_output_line(t, i)))
    }
}

/// After one output-op: while a comma follows, a dialect-A-only newline
/// line stands between successive output lines, then another output-op;
/// otherwise `end` "." closes the program.
pub open spec fn sp_output_ops_rest(t: Seq<TokenV>, i: int) -> Result<
    (int, Seq<Seq<char>>, Seq<Seq<char>>),
    ParseError,
>
    decreases t.len() - i,
{
    if i + 1 >= t.len() {
        Err(ParseError::OutOfTokens { expected: Expectation::Kind(TokenEdition::END) })
    } else if t[i + 1].kind == TokenEdition::COMMA {
        match sp_output_op(t, i + 1) {
            Ok((j, s, p)) => match sp_output_ops_rest(t, j) {
                Ok((k, ss, pp)) => Ok((k, seq!["(newline)"@, s] + ss, seq![p] + pp)),
                Err(e) => Err(e),
            },
            Err(e) => Err(e),
        }
    } else if t[i + 1].kind != TokenEdition::END {
        Err(
            ParseError::WrongToken {
                expected: Expectation::Kind(TokenEdition::END),
                found: t[i + 1].kind,
            },
        )
    } else if i + 2 >= t.len() {
        Err(ParseError::OutOfTokens { expected: Expectation::Kind(TokenEdition::PERIOD) })
    } else if t[i + 2].kind != TokenEdition::PERIOD {
        Err(
            ParseError::WrongToken {
                expected: Expectation::Kind(TokenEdition::PERIOD),
                found: t[i + 2].kind,
            },
        )
    } else {
        Ok((i + 2, Seq::empty(), Seq::empty()))
    }
}

/// output-ops := output-op ("," output-op)*, closed by `end` ".".
pub open spec fn sp_output_ops(t: Seq<TokenV>, i: int) -> Result<
    (int, Seq<Seq<char>>, Seq<Seq<char>>),
    ParseError,
> {
    match sp_output_op(t, i) {
        Ok((j, s, p)) => match sp_output_ops_rest(t, j) {
            Ok((k, ss, pp)) => Ok((k, seq![s] + ss, seq![p] + pp)),
            Err(e) => Err(e),
        },
        Err(e) => Err(e),
    }
}

/// program := "data" ":" data-defs input-ops process-ops output-ops "end" ".",
/// recognized with the current position at the `data` keyword. On success:
/// the final position (the period) and the complete line sequences of the
/// two dialects. Tokens past the period are not examined.
pub open spec fn sp_program(t: Seq<TokenV>, i: int) -> Result<
    (int, Seq<Seq<char>>, Seq<Seq<char>>),
    ParseError,
> {
    if i < 0 || i >= t.len() {
        Err(ParseError::OutOfTokens { expected: Expectation::Kind(TokenEdition::DATA) })
    } else if t[i].kind != TokenEdition::DATA {
        Err(
            ParseError::WrongToken {
                expected: Expectation::Kind(TokenEdition::DATA),
                found: t[i].kind,
            },
        )
    } else if i + 1 >= t.len() {
        Err(ParseError::OutOfTokens { expected: Expectation::Kind(TokenEdition::COLON) })
    } else if t[i + 1].kind != TokenEdition::COLON {
        Err(
            ParseError::WrongToken {
                expected: Expectation::Kind(TokenEdition::COLON),
                found: t[i + 1].kind,
            },
        )
    } else {
        match sp_data_defs(t, i + 1) {
            Ok(j1) => match sp_input_ops(t, j1) {
                Ok((j2, s2, p2)) => match sp_process_ops(t, j2) {
                    Ok((j3, s3, p3)) => match sp_output_ops(t, j3) {
                        Ok((j4, s4, p4)) => Ok((j4, s2 + s3 + s4, p2 + p3 + p4)),
                        Err(e) => Err(e),
                    },
                    Err(e) => Err(e),
                },
                Err(e) => Err(e),
            },
            Err(e) => Err(e),
        }
    }
}

/// The whole translation as one function of the source text: scan, then
/// recognize the program, yielding the two complete output buffers or the
/// first error.
pub open spec fn spec_translate(s: Seq<char>) -> Result<
    (Seq<Seq<char>>, Seq<Seq<char>>),
    TranslateError,
> {
    match spec_scan(s) {
        Err(e) => Err(TranslateError::Lexical(e)),
        Ok(tv) => match sp_program(tv, 0) {
            Ok((j, sch, pl)) => Ok((sch, pl)),
            Err(e) => Err(TranslateError::Grammatical(e)),
        },
    }
}

/// The translator's state: the source text, the token sequence with a
/// current-position index, the two append-only output buffers and the
/// dialect flag the caller chose.
pub struct Store {
    pub source_code: String,
    pub current_index: usize,
    pub tokens: Vec<Token>,
    pub scheme_output: Vec<String>,
    pub pl_output: Vec<String>,
    pub language_choice: String,
}

/// The parts of a Store that no grammar procedure may change.
pub open spec fn same_program(a: Store, b: Store) -> bool {
    a.tokens == b.tokens && a.source_code == b.source_code && a.language_choice
        == b.language_choice
}

impl Store {
    /// The token sequence's model.
    pub open spec fn toksv(self) -> Seq<TokenV> {
        toks_view(self.tokens@)
    }

    /// The Scheme-like output buffer's model.
    pub open spec fn schv(self) -> Seq<Seq<char>> {
        lines_view(self.scheme_output@)
    }

    /// The Prolog-like output buffer's model.
    pub open spec fn plv(self) -> Seq<Seq<char>> {
        lines_view(self.pl_output@)
    }

    /// The current read position over the token sequence.
    pub open spec fn idx(self) -> int {
        self.current_index as int
    }

    /// A Store as construction leaves it: no tokens, empty buffers,
    /// position zero.
    pub open spec fn fresh(self) -> bool {
        self.tokens@.len() == 0 && self.scheme_output@.len() == 0 && self.pl_output@.len() == 0
            && self.current_index == 0
    }

    pub fn new(source_code: String, choice: String) -> (s: Store)
        ensures
            s.fresh(),
            s.source_code@ == source_code@,
            s.language_choice@ == choice@,
    {
        Store {
            language_choice: choice,
            source_code,
            current_index: 0,
            tokens: Vec::new(),
            scheme_output: Vec::new(),
            pl_output: Vec::new(),
        }
    }

    /// Advance the read position and hand back the kind of the token now
    /// current, or nothing when the sequence is exhausted (a truncated
    /// program).
    pub fn get_next_token(&mut self) -> (r: Option<TokenEdition>)
        ensures
            same_program(*old(self), *final(self)),
            final(self).scheme_output == old(self).scheme_output,
            final(self).pl_output == old(self).pl_output,
            match r {
                Some(k) => old(self).idx() + 1 < old(self).toksv().len() && final(self).idx()
                    == old(self).idx() + 1 && k == old(self).toksv()[old(self).idx() + 1].kind,
                None => old(self).idx() + 1 >= old(self).toksv().len() && final(self).idx()
                    == old(self).idx(),
            },
    {
        let len = self.tokens.len();
        if self.current_index < len && len - self.current_index > 1 {
            self.current_index = self.current_index + 1;
            Some(self.tokens[self.current_index].kind)
        } else {
            None
        }
    }

    /// The token at the current position.
    pub fn cur_token(&self) -> (t: &Token)
        requires
            0 <= self.idx() < self.toksv().len(),
        ensures
            t@ == self.toksv()[self.idx()],
    {
        &self.tokens[self.current_index]
    }

    /// The kind of the token one past the current position, without moving.
    pub fn peek(&self) -> (r: Option<TokenEdition>)
        ensures
            match r {
                Some(k) => self.idx() + 1 < self.toksv().len() && k == self.toksv()[self.idx()
                    + 1].kind,
                None => self.idx() + 1 >= self.toksv().len(),
            },
    {
        let len = self.tokens.len();
        if self.current_index < len && len - self.current_index > 1 {
            Some(self.tokens[self.current_index + 1].kind)
        } else {
            None
        }
    }

    /// Recognize one data-def: identifier ":" ("number" | "vector").
    pub fn data_def(&mut self) -> (r: Result<(), ParseError>)
        ensures
            same_program(*old(self), *final(self)),
            final(self).scheme_output == old(self).scheme_output,
            final(self).pl_output == old(self).pl_output,
            match r {
                Ok(_) => sp_data_def(old(self).toksv(), old(self).idx()) == Ok::<int, ParseError>(
                    final(self).idx(),
                ),
                Err(e) => sp_data_def(old(self).toksv(), old(self).idx()) == Err::<
                    int,
                    ParseError,
                >(e),
            },
    {
        let k1 = match self.get_next_token() {
            Some(k) => k,
            None => {
                return Err(
                    ParseError::OutOfTokens { expected: Expectation::Kind(TokenEdition::ID) },
                );
            },
        };
        if k1 != TokenEdition::ID {
            return Err(
                ParseError::WrongToken {
                    expected: Expectation::Kind(TokenEdition::ID),
                    found: k1,
                },
            );
        }
        if !id_check(self.cur_token().literal.as_str()) {
            return Err(ParseError::InvalidIdentifier);
        }
        let k2 = match self.get_next_token() {
            Some(k) => k,
            None => {
                return Err(
                    ParseError::OutOfTokens { expected: Expectation::Kind(TokenEdition::COLON) },
                );
            },
        };
        if k2 != TokenEdition::COLON {
            return Err(
                ParseError::WrongToken {
                    expected: Expectation::Kind(TokenEdition::COLON),
                    found: k2,
                },
            );
        }
        let k3 = match self.get_next_token() {
            Some(k) => k,
            None => {
                return Err(ParseError::OutOfTokens { expected: Expectation::TypeKeyword });
            },
        };
        if k3 != TokenEdition::NUMBER && k3 != TokenEdition::VECTOR {
            return Err(ParseError::WrongToken { expected: Expectation::TypeKeyword, found: k3 });
        }
        Ok(())
    }

    /// Recognize the whole data section: data-defs closed by `input` ":".
    pub fn data_defs(&mut self) -> (r: Result<(), ParseError>)
        ensures
            same_program(*old(self), *final(self)),
            final(self).scheme_output == old(self).scheme_output,
            final(self).pl_output == old(self).pl_output,
            match r {
                Ok(_) => sp_data_defs(old(self).toksv(), old(self).idx()) == Ok::<
                    int,
                    ParseError,
                >(final(self).idx()),
                Err(e) => sp_data_defs(old(self).toksv(), old(self).idx()) == Err::<
                    int,
                    ParseError,
                >(e),
            },
    {
        let ghost t = self.toksv();
        let ghost i0 = self.idx();
        match self.data_def() {
            Ok(_) => {},
            Err(e) => {
                return Err(e);
            },
        }
        let ghost mut p = self.idx();
        let mut nk = self.get_next_token();
        let mut is_comma = match nk {
            Some(k) => k == TokenEdition::COMMA,
            None => false,
        };
        while is_comma
            invariant
                same_program(*old(self), *self),
                self.scheme_output == old(self).scheme_output,
                self.pl_output == old(self).pl_output,
                t == self.toksv(),
                t == old(self).toksv(),
                i0 == old(self).idx(),
                sp_data_defs(t, i0) == sp_data_defs_rest(t, p),
                match nk {
                    Some(k) => p + 1 < t.len() && self.idx() == p + 1 && k == t[p + 1].kind,
                    None => p + 1 >= t.len(),
                },
                is_comma == (nk matches Some(TokenEdition::COMMA)),
            decreases t.len() - p,
        {
            match self.data_def() {
                Ok(_) => {},
                Err(e) => {
                    return Err(e);
                },
            }
            proof {
                p = self.idx();
            }
            nk = self.get_next_token();
            is_comma = match nk {
                Some(k) => k == TokenEdition::COMMA,
                None => false,
            };
        }
        match nk {
            None => Err(ParseError::OutOfTokens { expected: Expectation::Kind(TokenEdition::INPUT) }),
            Some(k) => {
                if k != TokenEdition::INPUT {
                    return Err(
                        ParseError::WrongToken {
                            expected: Expectation::Kind(TokenEdition::INPUT),
                            found: k,
                        },
                    );
                }
                let k2 = match self.get_next_token() {
                    Some(k2) => k2,
                    None => {
                        return Err(
                            ParseError::OutOfTokens {
                                expected: Expectation::Kind(TokenEdition::COLON),
                            },
                        );
                    },
                };
                if k2 != TokenEdition::COLON {
                    return Err(
                        ParseError::WrongToken {
                            expected: Expectation::Kind(TokenEdition::COLON),
                            found: k2,
                        },
                    );
                }
                Ok(())
            },
        }
    }

    /// Recognize one input-op and append its generated line to each buffer.
    pub fn input_op(&mut self) -> (r: Result<(), ParseError>)
        ensures
            same_program(*old(self), *final(self)),
            match r {
                Ok(_) => sp_input_op(old(self).toksv(), old(self).idx()) matches Ok((j, s, p))
                    && final(self).idx() == j && final(self).schv() == old(self).schv().push(s)
                    && final(self).plv() == old(self).plv().push(p),
                Err(e) => sp_input_op(old(self).toksv(), old(self).idx()) == Err::<
                    (int, Seq<char>, Seq<char>),
                    ParseError,
                >(e) && final(self).scheme_output == old(self).scheme_output
                    && final(self).pl_output == old(self).pl_output,
            },
    {
        let mut scheme_builder = String::from_str("(define ");
        let mut prolog_builder = String::from_str("load_data_column(");

        let k1 = match self.get_next_token() {
            Some(k) => k,
            None => {
                return Err(
                    ParseError::OutOfTokens { expected: Expectation::Kind(TokenEdition::ID) },
                );
            },
        };
        if k1 != TokenEdition::ID {
            return Err(
                ParseError::WrongToken { expected: Expectation::Kind(TokenEdition::ID), found: k1 },
            );
        }
        if !id_check(self.cur_token().literal.as_str()) {
            return Err(ParseError::InvalidIdentifier);
        }
        scheme_builder.append(self.cur_token().literal.as_str());
        let pl_id = self.cur_token().literal.clone();

        let k2 = match self.get_next_token() {
            Some(k) => k,
            None => {
                return Err(
                    ParseError::OutOfTokens { expected: Expectation::Kind(TokenEdition::ASSIGN) },
                );
            },
        };
        if k2 != TokenEdition::ASSIGN {
            return Err(
                ParseError::WrongToken {
                    expected: Expectation::Kind(TokenEdition::ASSIGN),
                    found: k2,
                },
            );
        }
        let k3 = match self.get_next_token() {
            Some(k) => k,
            None => {
                return Err(
                    ParseError::OutOfTokens { expected: Expectation::Kind(TokenEdition::READ) },
                );
            },
        };
        if k3 != TokenEdition::READ {
            return Err(
                ParseError::WrongToken {
                    expected: Expectation::Kind(TokenEdition::READ),
                    found: k3,
                },
            );
        }
        let k4 = match self.get_next_token() {
            Some(k) => k,
            None => {
                return Err(
                    ParseError::OutOfTokens { expected: Expectation::Kind(TokenEdition::LPAREN) },
                );
            },
        };
        if k4 != TokenEdition::LPAREN {
            return Err(
                ParseError::WrongToken {
                    expected: Expectation::Kind(TokenEdition::LPAREN),
                    found: k4,
                },
            );
        }
        scheme_builder.append(" (read-csv ");

        let k5 = match self.get_next_token() {
            Some(k) => k,
            None => {
                return Err(
                    ParseError::OutOfTokens { expected: Expectation::Kind(TokenEdition::STRING) },
                );
            },
        };
        if k5 != TokenEdition::STRING {
            return Err(
                ParseError::WrongToken {
                    expected: Expectation::Kind(TokenEdition::STRING),
                    found: k5,
                },
            );
        }
        let scheme_file = self.manip_scheme_string(&self.cur_token().literal);
        scheme_builder.append(scheme_file.as_str());
        let pl_file = self.manip_pl_string(&self.cur_token().literal);
        prolog_builder.append(pl_file.as_str());

        let k6 = match self.get_next_token() {
            Some(k) => k,
            None => {
                return Err(
                    ParseError::OutOfTokens { expected: Expectation::Kind(TokenEdition::COMMA) },
                );
            },
        };
        if k6 != TokenEdition::COMMA {
            return Err(
                ParseError::WrongToken {
                    expected: Expectation::Kind(TokenEdition::COMMA),
                    found: k6,
                },
            );
        }
        prolog_builder.append(self.cur_token().literal.as_str());

        let k7 = match self.get_next_token() {
            Some(k) => k,
            None => {
                return Err(ParseError::OutOfTokens { expected: Expectation::BoolLiteral });
            },
        };
        if k7 == TokenEdition::TRUE {
            scheme_builder.append(" #t ");
        } else if k7 == TokenEdition::FALSE {
            scheme_builder.append(" #f ");
        } else {
            return Err(ParseError::WrongToken { expected: Expectation::BoolLiteral, found: k7 });
        }
        prolog_builder.append(" ");
        prolog_builder.append(self.cur_token().literal.as_str());

        let k8 = match self.get_next_token() {
            Some(k) => k,
            None => {
                return Err(
                    ParseError::OutOfTokens { expected: Expectation::Kind(TokenEdition::COMMA) },
                );
            },
        };
        if k8 != TokenEdition::COMMA {
            return Err(
                ParseError::WrongToken {
                    expected: Expectation::Kind(TokenEdition::COMMA),
                    found: k8,
                },
            );
        }
        prolog_builder.append(self.cur_token().literal.as_str());

        let k9 = match self.get_next_token() {
            Some(k) => k,
            None => {
                return Err(
                    ParseError::OutOfTokens { expected: Expectation::Kind(TokenEdition::NUM) },
                );
            },
        };
        if k9 != TokenEdition::NUM {
            return Err(
                ParseError::WrongToken {
                    expected: Expectation::Kind(TokenEdition::NUM),
                    found: k9,
                },
            );
        }
        prolog_builder.append(" ");
        prolog_builder.append(self.cur_token().literal.as_str());
        scheme_builder.append(self.cur_token().literal.as_str());

        let k10 = match self.get_next_token() {
            Some(k) => k,
            None => {
                return Err(
                    ParseError::OutOfTokens { expected: Expectation::Kind(TokenEdition::RPAREN) },
                );
            },
        };
        if k10 != TokenEdition::RPAREN {
            return Err(
                ParseError::WrongToken {
                    expected: Expectation::Kind(TokenEdition::RPAREN),
                    found: k10,
                },
            );
        }
        prolog_builder.append(", V");
        prolog_builder.append(pl_id.as_str());
        prolog_builder.append(self.cur_token().literal.as_str());

        scheme_builder.append("))");
        prolog_builder.append(",");

        proof {
            assert(scheme_builder@ =~= scheme_input_line(old(self).toksv(), old(self).idx()));
            assert(prolog_builder@ =~= pl_input_line(old(self).toksv(), old(self).idx()));
            lemma_lines_view_push(self.scheme_output@, scheme_builder);
            lemma_lines_view_push(self.pl_output@, prolog_builder);
        }
        self.scheme_output.push(scheme_builder);
        self.pl_output.push(prolog_builder);
        Ok(())
    }

    /// Recognize the whole input section: input-ops closed by `process` ":".
    pub fn input_ops(&mut self) -> (r: Result<(), ParseError>)
        ensures
            same_program(*old(self), *final(self)),
            match r {
                Ok(_) => sp_input_ops(old(self).toksv(), old(self).idx()) matches Ok((j, ss, pp))
                    && final(self).idx() == j && final(self).schv() == old(self).schv() + ss
                    && final(self).plv() == old(self).plv() + pp,
                Err(e) => sp_input_ops(old(self).toksv(), old(self).idx()) == Err::<
                    (int, Seq<Seq<char>>, Seq<Seq<char>>),
                    ParseError,
                >(e),
            },
    {
        let ghost t = self.toksv();
        let ghost i0 = self.idx();
        let ghost sch0 = self.schv();
        let ghost pl0 = self.plv();
        match self.input_op() {
            Ok(_) => {},
            Err(e) => {
                return Err(e);
            },
        }
        let ghost mut p = self.idx();
        let ghost mut acc_s = seq![sp_input_op(t, i0)->Ok_0.1];
        let ghost mut acc_p = seq![sp_input_op(t, i0)->Ok_0.2];
        proof {
            assert(self.schv() =~= sch0 + acc_s);
            assert(self.plv() =~= pl0 + acc_p);
        }
        let mut nk = self.get_next_token();
        let mut is_comma = match nk {
            Some(k) => k == TokenEdition::COMMA,
            None => false,
        };
        while is_comma
            invariant
                same_program(*old(self), *self),
                t == self.toksv(),
                t == old(self).toksv(),
                i0 == old(self).idx(),
                sch0 == old(self).schv(),
                pl0 == old(self).plv(),
                self.schv() == sch0 + acc_s,
                self.plv() == pl0 + acc_p,
                (match sp_input_ops_rest(t, p) {
                    Ok((k, ss, pp)) => sp_input_ops(t, i0) == Ok::<
                        (int, Seq<Seq<char>>, Seq<Seq<char>>),
                        ParseError,
                    >((k, acc_s + ss, acc_p + pp)),
                    Err(e) => sp_input_ops(t, i0) == Err::<
                        (int, Seq<Seq<char>>, Seq<Seq<char>>),
                        ParseError,
                    >(e),
                }),
                match nk {
                    Some(k) => p + 1 < t.len() && self.idx() == p + 1 && k == t[p + 1].kind,
                    None => p + 1 >= t.len(),
                },
                is_comma == (nk matches Some(TokenEdition::COMMA)),
            decreases t.len() - p,
        {
            match self.input_op() {
                Ok(_) => {},
                Err(e) => {
                    return Err(e);
                },
            }
            proof {
                let opres = sp_input_op(t, p + 1)->Ok_0;
                if sp_input_ops_rest(t, opres.0) is Ok {
                    let rr = sp_input_ops_rest(t, opres.0)->Ok_0;
                    assert(acc_s + (seq![opres.1] + rr.1) =~= (acc_s + seq![opres.1]) + rr.1);
                    assert(acc_p + (seq![opres.2] + rr.2) =~= (acc_p + seq![opres.2]) + rr.2);
                }
                acc_s = acc_s + seq![opres.1];
                acc_p = acc_p + seq![opres.2];
                p = opres.0;
                assert(self.schv() =~= sch0 + acc_s);
                assert(self.plv() =~= pl0 + acc_p);
            }
            nk = self.get_next_token();
            is_comma = match nk {
                Some(k) => k == TokenEdition::COMMA,
                None => false,
            };
        }
        match nk {
            None => Err(
                ParseError::OutOfTokens { expected: Expectation::Kind(TokenEdition::PROCESS) },
            ),
            Some(k) => {
                if k != TokenEdition::PROCESS {
                    return Err(
                        ParseError::WrongToken {
                            expected: Expectation::Kind(TokenEdition::PROCESS),
                            found: k,
                        },
                    );
                }
                let k2 = match self.get_next_token() {
                    Some(k2) => k2,
                    None => {
                        return Err(
                            ParseError::OutOfTokens {
                                expected: Expectation::Kind(TokenEdition::COLON),
                            },
                        );
                    },
                };
                if k2 != TokenEdition::COLON {
                    return Err(
                        ParseError::WrongToken {
                            expected: Expectation::Kind(TokenEdition::COLON),
                            found: k2,
                        },
                    );
                }
                proof {
                    assert(acc_s + Seq::<Seq<char>>::empty() =~= acc_s);
                    assert(acc_p + Seq::<Seq<char>>::empty() =~= acc_p);
                }
                Ok(())
            },
        }
    }

    /// Recognize one process-op, enforcing its arity, and append its
    /// generated line to each buffer.
    pub fn process_op(&mut self) -> (r: Result<(), ParseError>)
        ensures
            same_program(*old(self), *final(self)),
            match r {
                Ok(_) => sp_process_op(old(self).toksv(), old(self).idx()) matches Ok((j, s, p))
                    && final(self).idx() == j && final(self).schv() == old(self).schv().push(s)
                    && final(self).plv() == old(self).plv().push(p),
                Err(e) => sp_process_op(old(self).toksv(), old(self).idx()) == Err::<
                    (int, Seq<char>, Seq<char>),
                    ParseError,
                >(e) && final(self).scheme_output == old(self).scheme_output
                    && final(self).pl_output == old(self).pl_output,
            },
    {
        let mut scheme_builder = String::from_str("(define ");
        let mut prolog_builder = String::new();

        let k1 = match self.get_next_token() {
            Some(k) => k,
            None => {
                return Err(
                    ParseError::OutOfTokens { expected: Expectation::Kind(TokenEdition::ID) },
                );
            },
        };
        if k1 != TokenEdition::ID {
            return Err(
                ParseError::WrongToken { expected: Expectation::Kind(TokenEdition::ID), found: k1 },
            );
        }
        if !id_check(self.cur_token().literal.as_str()) {
            return Err(ParseError::InvalidIdentifier);
        }
        let pl_id = self.cur_token().literal.clone();
        scheme_builder.append(self.cur_token().literal.as_str());

        let k2 = match self.get_next_token() {
            Some(k) => k,
            None => {
                return Err(
                    ParseError::OutOfTokens { expected: Expectation::Kind(TokenEdition::ASSIGN) },
                );
            },
        };
        if k2 != TokenEdition::ASSIGN {
            return Err(
                ParseError::WrongToken {
                    expected: Expectation::Kind(TokenEdition::ASSIGN),
                    found: k2,
                },
            );
        }
        let function_kind = match self.get_next_token() {
            Some(k) => k,
            None => {
                return Err(ParseError::OutOfTokens { expected: Expectation::StatFn });
            },
        };
        if function_kind != TokenEdition::CORRELATION && function_kind != TokenEdition::MEAN
            && function_kind != TokenEdition::REGRESSIONA && function_kind
            != TokenEdition::REGRESSIONB && function_kind != TokenEdition::STDDEV {
            return Err(
                ParseError::WrongToken { expected: Expectation::StatFn, found: function_kind },
            );
        }
        scheme_builder.append(" (");
        scheme_builder.append(self.cur_token().literal.as_str());
        prolog_builder.append(self.cur_token().literal.as_str());

        let k4 = match self.get_next_token() {
            Some(k) => k,
            None => {
                return Err(
                    ParseError::OutOfTokens { expected: Expectation::Kind(TokenEdition::LPAREN) },
                );
            },
        };
        if k4 != TokenEdition::LPAREN {
            return Err(
                ParseError::WrongToken {
                    expected: Expectation::Kind(TokenEdition::LPAREN),
                    found: k4,
                },
            );
        }
        prolog_builder.append(self.cur_token().literal.as_str());

        let k5 = match self.get_next_token() {
            Some(k) => k,
            None => {
                return Err(
                    ParseError::OutOfTokens { expected: Expectation::Kind(TokenEdition::ID) },
                );
            },
        };
        if k5 != TokenEdition::ID {
            return Err(
                ParseError::WrongToken { expected: Expectation::Kind(TokenEdition::ID), found: k5 },
            );
        }
        if !id_check(self.cur_token().literal.as_str()) {
            return Err(ParseError::InvalidIdentifier);
        }
        scheme_builder.append(" ");
        scheme_builder.append(self.cur_token().literal.as_str());
        prolog_builder.append("V");
        prolog_builder.append(self.cur_token().literal.as_str());
        prolog_builder.append(", ");

        if function_kind == TokenEdition::MEAN || function_kind == TokenEdition::STDDEV {
            let k6 = match self.get_next_token() {
                Some(k) => k,
                None => {
                    return Err(
                        ParseError::OutOfTokens {
                            expected: Expectation::Kind(TokenEdition::RPAREN),
                        },
                    );
                },
            };
            if k6 != TokenEdition::RPAREN {
                return Err(
                    ParseError::WrongToken {
                        expected: Expectation::Kind(TokenEdition::RPAREN),
                        found: k6,
                    },
                );
            }
            prolog_builder.append("V");
            prolog_builder.append(pl_id.as_str());
            scheme_builder.append("))");
            prolog_builder.append("),");
            proof {
                assert(scheme_builder@ =~= scheme_process_line_one(
                    old(self).toksv(),
                    old(self).idx(),
                ));
                assert(prolog_builder@ =~= pl_process_line_one(old(self).toksv(), old(self).idx()));
                lemma_lines_view_push(self.scheme_output@, scheme_builder);
                lemma_lines_view_push(self.pl_output@, prolog_builder);
            }
            self.scheme_output.push(scheme_builder);
            self.pl_output.push(prolog_builder);
            Ok(())
        } else {
            let k6 = match self.get_next_token() {
                Some(k) => k,
                None => {
                    return Err(
                        ParseError::OutOfTokens {
                            expected: Expectation::Kind(TokenEdition::COMMA),
                        },
                    );
                },
            };
            if k6 != TokenEdition::COMMA {
                return Err(
                    ParseError::WrongToken {
                        expected: Expectation::Kind(TokenEdition::COMMA),
                        found: k6,
                    },
                );
            }
            let k7 = match self.get_next_token() {
                Some(k) => k,
                None => {
                    return Err(
                        ParseError::OutOfTokens { expected: Expectation::Kind(TokenEdition::ID) },
                    );
                },
            };
            if k7 != TokenEdition::ID {
                return Err(
                    ParseError::WrongToken {
                        expected: Expectation::Kind(TokenEdition::ID),
                        found: k7,
                    },
                );
            }
            if !id_check(self.cur_token().literal.as_str()) {
                return Err(ParseError::InvalidIdentifier);
            }
            scheme_builder.append(" ");
            scheme_builder.append(self.cur_token().literal.as_str());
            prolog_builder.append("V");
            prolog_builder.append(self.cur_token().literal.as_str());
            prolog_builder.append(", ");

            let k8 = match self.get_next_token() {
                Some(k) => k,
                None => {
                    return Err(
                        ParseError::OutOfTokens {
                            expected: Expectation::Kind(TokenEdition::RPAREN),
                        },
                    );
                },
            };
            if k8 != TokenEdition::RPAREN {
                return Err(
                    ParseError::WrongToken {
                        expected: Expectation::Kind(TokenEdition::RPAREN),
                        found: k8,
                    },
                );
            }
            prolog_builder.append("V");
            prolog_builder.append(pl_id.as_str());
            scheme_builder.append("))");
            prolog_builder.append("),");
            proof {
                assert(scheme_builder@ =~= scheme_process_line_two(
                    old(self).toksv(),
                    old(self).idx(),
                ));
                assert(prolog_builder@ =~= pl_process_line_two(old(self).toksv(), old(self).idx()));
                lemma_lines_view_push(self.scheme_output@, scheme_builder);
                lemma_lines_view_push(self.pl_output@, prolog_builder);
            }
            self.scheme_output.push(scheme_builder);
            self.pl_output.push(prolog_builder);
            Ok(())
        }
    }

    /// Recognize the whole process section: process-ops closed by
    /// `output` ":".
    pub fn process_ops(&mut self) -> (r: Result<(), ParseError>)
        ensures
            same_program(*old(self), *final(self)),
            match r {
                Ok(_) => sp_process_ops(old(self).toksv(), old(self).idx()) matches Ok((j, ss, pp))
                    && final(self).idx() == j && final(self).schv() == old(self).schv() + ss
                    && final(self).plv() == old(self).plv() + pp,
                Err(e) => sp_process_ops(old(self).toksv(), old(self).idx()) == Err::<
                    (int, Seq<Seq<char>>, Seq<Seq<char>>),
                    ParseError,
                >(e),
            },
    {
        let ghost t = self.toksv();
        let ghost i0 = self.idx();
        let ghost sch0 = self.schv();
        let ghost pl0 = self.plv();
        match self.process_op() {
            Ok(_) => {},
            Err(e) => {
                return Err(e);
            },
        }
        let ghost mut p = self.idx();
        let ghost mut acc_s = seq![sp_process_op(t, i0)->Ok_0.1];
        let ghost mut acc_p = seq![sp_process_op(t, i0)->Ok_0.2];
        proof {
            assert(self.schv() =~= sch0 + acc_s);
            assert(self.plv() =~= pl0 + acc_p);
        }
        let mut nk = self.get_next_token();
        let mut is_comma = match nk {
            Some(k) => k == TokenEdition::COMMA,
            None => false,
        };
        while is_comma
            invariant
                same_program(*old(self), *self),
                t == self.toksv(),
                t == old(self).toksv(),
                i0 == old(self).idx(),
                sch0 == old(self).schv(),
                pl0 == old(self).plv(),
                self.schv() == sch0 + acc_s,
                self.plv() == pl0 + acc_p,
                (match sp_process_ops_rest(t, p) {
                    Ok((k, ss, pp)) => sp_process_ops(t, i0) == Ok::<
                        (int, Seq<Seq<char>>, Seq<Seq<char>>),
                        ParseError,
                    >((k, acc_s + ss, acc_p + pp)),
                    Err(e) => sp_process_ops(t, i0) == Err::<
                        (int, Seq<Seq<char>>, Seq<Seq<char>>),
                        ParseError,
                    >(e),
                }),
                match nk {
                    Some(k) => p + 1 < t.len() && self.idx() == p + 1 && k == t[p + 1].kind,
                    None => p + 1 >= t.len(),
                },
                is_comma == (nk matches Some(TokenEdition::COMMA)),
            decreases t.len() - p,
        {
            match self.process_op() {
                Ok(_) => {},
                Err(e) => {
                    return Err(e);
                },
            }
            proof {
                let opres = sp_process_op(t, p + 1)->Ok_0;
                if sp_process_ops_rest(t, opres.0) is Ok {
                    let rr = sp_process_ops_rest(t, opres.0)->Ok_0;
                    assert(acc_s + (seq![opres.1] + rr.1) =~= (acc_s + seq![opres.1]) + rr.1);
                    assert(acc_p + (seq![opres.2] + rr.2) =~= (acc_p + seq![opres.2]) + rr.2);
                }
                acc_s = acc_s + seq![opres.1];
                acc_p = acc_p + seq![opres.2];
                p = opres.0;
                assert(self.schv() =~= sch0 + acc_s);
                assert(self.plv() =~= pl0 + acc_p);
            }
            nk = self.get_next_token();
            is_comma = match nk {
                Some(k) => k == TokenEdition::COMMA,
                None => false,
            };
        }
        match nk {
            None => Err(
                ParseError::OutOfTokens { expected: Expectation::Kind(TokenEdition::OUTPUT) },
            ),
            Some(k) => {
                if k != TokenEdition::OUTPUT {
                    return Err(
                        ParseError::WrongToken {
                            expected: Expectation::Kind(TokenEdition::OUTPUT),
                            found: k,
                        },
                    );
                }
                let k2 = match self.get_next_token() {
                    Some(k2) => k2,
                    None => {
                        return Err(
                            ParseError::OutOfTokens {
                                expected: Expectation::Kind(TokenEdition::COLON),
                            },
                        );
                    },
                };
                if k2 != TokenEdition::COLON {
                    return Err(
                        ParseError::WrongToken {
                            expected: Expectation::Kind(TokenEdition::COLON),
                            found: k2,
                        },
                    );
                }
                proof {
                    assert(acc_s + Seq::<Seq<char>>::empty() =~= acc_s);
                    assert(acc_p + Seq::<Seq<char>>::empty() =~= acc_p);
                }
                Ok(())
            },
        }
    }

    /// Recognize one output-op and append its generated line to each buffer.
    pub fn output_op(&mut self) -> (r: Result<(), ParseError>)
        ensures
            same_program(*old(self), *final(self)),
            match r {
                Ok(_) => sp_output_op(old(self).toksv(), old(self).idx()) matches Ok((j, s, p))
                    && final(self).idx() == j && final(self).schv() == old(self).schv().push(s)
                    && final(self).plv() == old(self).plv().push(p),
                Err(e) => sp_output_op(old(self).toksv(), old(self).idx()) == Err::<
                    (int, Seq<char>, Seq<char>),
                    ParseError,
                >(e) && final(self).scheme_output == old(self).scheme_output
                    && final(self).pl_output == old(self).pl_output,
            },
    {
        let mut scheme_builder = String::from_str("(display ");
        let mut prolog_builder = String::from_str("writeln(");

        let k1 = match self.get_next_token() {
            Some(k) => k,
            None => {
                return Err(ParseError::OutOfTokens { expected: Expectation::OutputTerm });
            },
        };
        if k1 != TokenEdition::STRING && k1 != TokenEdition::ID {
            return Err(ParseError::WrongToken { expected: Expectation::OutputTerm, found: k1 });
        }
        if k1 == TokenEdition::ID {
            if !id_check(self.cur_token().literal.as_str()) {
                return Err(ParseError::InvalidIdentifier);
            }
        }
        scheme_builder.append(self.cur_token().literal.as_str());
        scheme_builder.append(")");
        if k1 == TokenEdition::ID {
            prolog_builder.append("V");
            prolog_builder.append(self.cur_token().literal.as_str());
        } else {
            prolog_builder.append(self.cur_token().literal.as_str());
        }
        let k2 = match self.peek() {
            Some(k) => k,
            None => {
                return Err(
                    ParseError::OutOfTokens { expected: Expectation::Kind(TokenEdition::END) },
                );
            },
        };
        if k2 == TokenEdition::END {
            prolog_builder.append(").");
        } else {
            prolog_builder.append("),");
        }
        proof {
            assert(scheme_builder@ =~= scheme_output_line(old(self).toksv(), old(self).idx()));
            assert(prolog_builder@ =~= pl_output_line(old(self).toksv(), old(self).idx()));
            lemma_lines_view_push(self.scheme_output@, scheme_builder);
            lemma_lines_view_push(self.pl_output@, prolog_builder);
        }
        self.scheme_output.push(scheme_builder);
        self.pl_output.push(prolog_builder);
        Ok(())
    }

    /// Recognize the whole output section: output-ops closed by `end` ".",
    /// with a dialect-A-only newline line between successive output lines.
    pub fn output_ops(&mut self) -> (r: Result<(), ParseError>)
        ensures
            same_program(*old(self), *final(self)),
            match r {
                Ok(_) => sp_output_ops(old(self).toksv(), old(self).idx()) matches Ok((j, ss, pp))
                    && final(self).idx() == j && final(self).schv() == old(self).schv() + ss
                    && final(self).plv() == old(self).plv() + pp,
                Err(e) => sp_output_ops(old(self).toksv(), old(self).idx()) == Err::<
                    (int, Seq<Seq<char>>, Seq<Seq<char>>),
                    ParseError,
                >(e),
            },
    {
        let ghost t = self.toksv();
        let ghost i0 = self.idx();
        let ghost sch0 = self.schv();
        let ghost pl0 = self.plv();
        match self.output_op() {
            Ok(_) => {},
            Err(e) => {
                return Err(e);
            },
        }
        let ghost mut p = self.idx();
        let ghost mut acc_s = seq![sp_output_op(t, i0)->Ok_0.1];
        let ghost mut acc_p = seq![sp_output_op(t, i0)->Ok_0.2];
        proof {
            assert(self.schv() =~= sch0 + acc_s);
            assert(self.plv() =~= pl0 + acc_p);
        }
        let mut nk = self.get_next_token();
        let mut is_comma = match nk {
            Some(k) => k == TokenEdition::COMMA,
            None => false,
        };
        while is_comma
            invariant
                same_program(*old(self), *self),
                t == self.toksv(),
                t == old(self).toksv(),
                i0 == old(self).idx(),
                sch0 == old(self).schv(),
                pl0 == old(self).plv(),
                self.schv() == sch0 + acc_s,
                self.plv() == pl0 + acc_p,
                (match sp_output_ops_rest(t, p) {
                    Ok((k, ss, pp)) => sp_output_ops(t, i0) == Ok::<
                        (int, Seq<Seq<char>>, Seq<Seq<char>>),
                        ParseError,
                    >((k, acc_s + ss, acc_p + pp)),
                    Err(e) => sp_output_ops(t, i0) == Err::<
                        (int, Seq<Seq<char>>, Seq<Seq<char>>),
                        ParseError,
                    >(e),
                }),
                match nk {
                    Some(k) => p + 1 < t.len() && self.idx() == p + 1 && k == t[p + 1].kind,
                    None => p + 1 >= t.len(),
                },
                is_comma == (nk matches Some(TokenEdition::COMMA)),
            decreases t.len() - p,
        {
            let newline_line = String::from_str("(newline)");
            proof {
                lemma_lines_view_push(self.scheme_output@, newline_line);
            }
            self.scheme_output.push(newline_line);
            match self.output_op() {
                Ok(_) => {},
                Err(e) => {
                    return Err(e);
                },
            }
            proof {
                let opres = sp_output_op(t, p + 1)->Ok_0;
                if sp_output_ops_rest(t, opres.0) is Ok {
                    let rr = sp_output_ops_rest(t, opres.0)->Ok_0;
                    assert(acc_s + (seq!["(newline)"@, opres.1] + rr.1) =~= (acc_s + seq![
                        "(newline)"@,
                        opres.1,
                    ]) + rr.1);
                    assert(acc_p + (seq![opres.2] + rr.2) =~= (acc_p + seq![opres.2]) + rr.2);
                }
                acc_s = acc_s + seq!["(newline)"@, opres.1];
                acc_p = acc_p + seq![opres.2];
                p = opres.0;
                assert(self.schv() =~= sch0 + acc_s);
                assert(self.plv() =~= pl0 + acc_p);
            }
            nk = self.get_next_token();
            is_comma = match nk {
                Some(k) => k == TokenEdition::COMMA,
                None => false,
            };
        }
        match nk {
            None => Err(ParseError::OutOfTokens { expected: Expectation::Kind(TokenEdition::END) }),
            Some(k) => {
                if k != TokenEdition::END {
                    return Err(
                        ParseError::WrongToken {
                            expected: Expectation::Kind(TokenEdition::END),
                            found: k,
                        },
                    );
                }
                let k2 = match self.get_next_token() {
                    Some(k2) => k2,
                    None => {
                        return Err(
                            ParseError::OutOfTokens {
                                expected: Expectation::Kind(TokenEdition::PERIOD),
                            },
                        );
                    },
                };
                if k2 != TokenEdition::PERIOD {
                    return Err(
                        ParseError::WrongToken {
                            expected: Expectation::Kind(TokenEdition::PERIOD),
                            found: k2,
                        },
                    );
                }
                proof {
                    assert(acc_s + Seq::<Seq<char>>::empty() =~= acc_s);
                    assert(acc_p + Seq::<Seq<char>>::empty() =~= acc_p);
                }
                Ok(())
            },
        }
    }

    /// Recognize a whole program from the current position: `data` ":" and
    /// the four sections in order, filling both output buffers.
    pub fn program_syntax(&mut self) -> (r: Result<(), ParseError>)
        ensures
            same_program(*old(self), *final(self)),
            match r {
                Ok(_) => sp_program(old(self).toksv(), old(self).idx()) matches Ok((j, ss, pp))
                    && final(self).idx() == j && final(self).schv() == old(self).schv() + ss
                    && final(self).plv() == old(self).plv() + pp,
                Err(e) => sp_program(old(self).toksv(), old(self).idx()) == Err::<
                    (int, Seq<Seq<char>>, Seq<Seq<char>>),
                    ParseError,
                >(e),
            },
    {
        if self.current_index >= self.tokens.len() {
            return Err(ParseError::OutOfTokens { expected: Expectation::Kind(TokenEdition::DATA) });
        }
        let k0 = self.cur_token().kind;
        if k0 != TokenEdition::DATA {
            return Err(
                ParseError::WrongToken { expected: Expectation::Kind(TokenEdition::DATA), found: k0 },
            );
        }
        let k1 = match self.get_next_token() {
            Some(k) => k,
            None => {
                return Err(
                    ParseError::OutOfTokens { expected: Expectation::Kind(TokenEdition::COLON) },
                );
            },
        };
        if k1 != TokenEdition::COLON {
            return Err(
                ParseError::WrongToken {
                    expected: Expectation::Kind(TokenEdition::COLON),
                    found: k1,
                },
            );
        }
        match self.data_defs() {
            Ok(_) => {},
            Err(e) => {
                return Err(e);
            },
        }
        match self.input_ops() {
            Ok(_) => {},
            Err(e) => {
                return Err(e);
            },
        }
        match self.process_ops() {
            Ok(_) => {},
            Err(e) => {
                return Err(e);
            },
        }
        match self.output_ops() {
            Ok(_) => {},
            Err(e) => {
                return Err(e);
            },
        }
        proof {
            let t = old(self).toksv();
            let i0 = old(self).idx();
            let in_res = sp_input_ops(t, sp_data_defs(t, i0 + 1)->Ok_0)->Ok_0;
            let pr_res = sp_process_ops(t, in_res.0)->Ok_0;
            let out_res = sp_output_ops(t, pr_res.0)->Ok_0;
            assert(old(self).schv() + in_res.1 + pr_res.1 + out_res.1 =~= old(self).schv() + (
            in_res.1 + pr_res.1 + out_res.1));
            assert(old(self).plv() + in_res.2 + pr_res.2 + out_res.2 =~= old(self).plv() + (
            in_res.2 + pr_res.2 + out_res.2));
        }
        Ok(())
    }

    /// Translate the stored source text: scan it into tokens, then recognize
    /// the program, filling both output buffers; stop at the first lexical
    /// or grammatical error. The outcome is exactly `spec_translate` of the
    /// source.
    pub fn lex_and_parse_source(&mut self) -> (r: Result<(), TranslateError>)
        requires
            old(self).fresh(),
        ensures
            final(self).source_code == old(self).source_code,
            final(self).language_choice == old(self).language_choice,
            match r {
                Ok(_) => spec_translate(old(self).source_code@) == Ok::<
                    (Seq<Seq<char>>, Seq<Seq<char>>),
                    TranslateError,
                >((final(self).schv(), final(self).plv())),
                Err(e) => spec_translate(old(self).source_code@) == Err::<
                    (Seq<Seq<char>>, Seq<Seq<char>>),
                    TranslateError,
                >(e),
            },
    {
        let scanned = scan(self.source_code.as_str());
        match scanned {
            Err(e) => {
                return Err(TranslateError::Lexical(e));
            },
            Ok(v) => {
                self.tokens = v;
            },
        }
        let parsed = self.program_syntax();
        match parsed {
            Ok(_) => {
                proof {
                    let tv = toks_view(self.tokens@);
                    let pres = sp_program(tv, 0)->Ok_0;
                    assert(Seq::<Seq<char>>::empty() + pres.1 =~= pres.1);
                    assert(Seq::<Seq<char>>::empty() + pres.2 =~= pres.2);
                }
                Ok(())
            },
            Err(e) => Err(TranslateError::Grammatical(e)),
        }
    }

    /// The generated lines of the Scheme-like dialect.
    pub fn scheme_lines(&self) -> (r: &Vec<String>)
        ensures
            lines_view(r@) == self.schv(),
    {
        &self.scheme_output
    }

    /// The generated lines of the Prolog-like dialect.
    pub fn pl_lines(&self) -> (r: &Vec<String>)
        ensures
            lines_view(r@) == self.plv(),
    {
        &self.pl_output
    }

    /// The buffer selected by the dialect flag the Store was made with:
    /// "-s" chooses the Scheme-like buffer, "-p" the Prolog-like buffer,
    /// and any other flag selects nothing (a usage error).
    pub fn selected_lines(&self) -> (r: Option<&Vec<String>>)
        ensures
            self.language_choice@ == "-s"@ ==> (r matches Some(v) && lines_view(v@)
                == self.schv()),
            self.language_choice@ != "-s"@ && self.language_choice@ == "-p"@ ==> (r matches Some(v)
                && lines_view(v@) == self.plv()),
            self.language_choice@ != "-s"@ && self.language_choice@ != "-p"@ ==> r is None,
    {
        let scheme_flag = String::from_str("-s");
        let prolog_flag = String::from_str("-p");
        if self.language_choice == scheme_flag {
            Some(&self.scheme_output)
        } else if self.language_choice == prolog_flag {
            Some(&self.pl_output)
        } else {
            None
        }
    }

    /// Swap a string literal's double-quote delimiters for single quotes,
    /// for the Prolog-like dialect.
    pub fn manip_pl_string(&self, val: &String) -> (r: String)
        ensures
            r@ == pl_string_of(val@),
    {
        let n = val.as_str().unicode_len();
        if n < 2 {
            String::from_str("'")
        } else {
            let mid = val.as_str().substring_char(1, n - 1);
            String::from_str("'").concat(mid).concat("'")
        }
    }

    /// Strip a string literal's opening quote and prefix a relative-path
    /// marker, for the Scheme-like dialect.
    pub fn manip_scheme_string(&self, val: &String) -> (r: String)
        ensures
            r@ == scheme_string_of(val@),
    {
        let n = val.as_str().unicode_len();
        if n < 1 {
            String::from_str("\"./")
        } else {
            let rest = val.as_str().substring_char(1, n);
            String::from_str("\"./").concat(rest)
        }
    }
}

} // verus!

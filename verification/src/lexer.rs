//! The scanner: one left-to-right pass over the source characters with an
//! accumulation buffer, a quote flag and a parenthesis flag, producing the
//! complete token sequence or the first lexical error.
//!
//! The spec function `scan_from` states the per-character dispatch rules;
//! the executable scanner is proved to compute exactly its result.

use vstd::prelude::*;

use crate::classes::{
    contains_upper, digit_char, has_upper, is_digit_char, is_valid_string_interior,
    quoted_interior_ok,
};
use crate::token::{lemma_toks_view_push, toks_view, Token, TokenEdition, TokenV};

verus! {

/// A failure of lexical analysis: the source is rejected before parsing.
#[derive(Debug, PartialEq, Eq, Clone, Copy, Structural)]
pub enum LexError {
    /// An identifier run before a comma, outside parentheses, holds an
    /// uppercase letter.
    NonLowercaseIdentifier,
    /// A quoted literal's interior is empty or holds a character outside
    /// the allowed class.
    InvalidStringLiteral,
}

/// The scanner's state between characters: the accumulation buffer, the
/// two mode flags and the tokens emitted so far.
pub ghost struct ScanState {
    pub temp: Seq<char>,
    pub in_quote: bool,
    pub in_parens: bool,
    pub toks: Seq<TokenV>,
}

pub open spec fn initial_scan_state() -> ScanState {
    ScanState { temp: Seq::empty(), in_quote: false, in_parens: false, toks: Seq::empty() }
}

/// Index just past the maximal run of consecutive digits starting at i.
pub open spec fn digit_run_end(s: Seq<char>, i: int) -> int
    decreases s.len() - i,
{
    if i < 0 || i >= s.len() || !is_digit_char(s[i]) {
        i
    } else {
        digit_run_end(s, i + 1)
    }
}

pub proof fn lemma_digit_run_end_bounds(s: Seq<char>, i: int)
    requires
        0 <= i <= s.len(),
    ensures
        i <= digit_run_end(s, i) <= s.len(),
    decreases s.len() - i,
{
    if i < s.len() && is_digit_char(s[i]) {
        lemma_digit_run_end_bounds(s, i + 1);
    }
}

/// The maximal digit run from i ends exactly at the first position j at or
/// after i that is past the end or holds a non-digit.
pub proof fn lemma_digit_run_end_is(s: Seq<char>, i: int, j: int)
    requires
        0 <= i <= j <= s.len(),
        forall|k: int| i <= k < j ==> is_digit_char(#[trigger] s[k]),
        j == s.len() || !is_digit_char(s[j]),
    ensures
        digit_run_end(s, i) == j,
    decreases j - i,
{
    if i < j {
        lemma_digit_run_end_is(s, i + 1, j);
    }
}

/// The keyword token recognized the instant the buffer equals its string,
/// if any. The comparisons stand in the order the scanner makes them.
pub open spec fn keyword_kind(t: Seq<char>) -> Option<TokenEdition> {
    if t == "data"@ {
        Some(TokenEdition::DATA)
    } else if t == "input"@ {
        Some(TokenEdition::INPUT)
    } else if t == "process"@ {
        Some(TokenEdition::PROCESS)
    } else if t == "output"@ {
        Some(TokenEdition::OUTPUT)
    } else if t == "end"@ {
        Some(TokenEdition::END)
    } else if t == "read"@ {
        Some(TokenEdition::READ)
    } else if t == "number"@ {
        Some(TokenEdition::NUMBER)
    } else if t == "vector"@ {
        Some(TokenEdition::VECTOR)
    } else if t == "regressiona"@ {
        Some(TokenEdition::REGRESSIONA)
    } else if t == "regressionb"@ {
        Some(TokenEdition::REGRESSIONB)
    } else if t == "correlation"@ {
        Some(TokenEdition::CORRELATION)
    } else if t == "false"@ {
        Some(TokenEdition::FALSE)
    } else if t == "true"@ {
        Some(TokenEdition::TRUE)
    } else if t == "stddev"@ {
        Some(TokenEdition::STDDEV)
    } else if t == "mean"@ {
        Some(TokenEdition::MEAN)
    } else {
        None
    }
}

/// A nonempty buffer flushes as one identifier token; an empty one is dropped.
pub open spec fn flush_id(toks: Seq<TokenV>, temp: Seq<char>) -> Seq<TokenV> {
    if temp.len() > 0 {
        toks.push(TokenV { kind: TokenEdition::ID, lit: temp })
    } else {
        toks
    }
}

/// The tokens produced from position i onward, starting in state st, or the
/// first lexical error. One branch per dispatch rule:
/// inside a quote every character accumulates until the closing quote, whose
/// arrival validates the interior; outside a quote, a newline flushes the
/// buffer as an identifier, a space is skipped, a quote opens a literal,
/// a comma flushes booleans or identifiers (checking case outside
/// parentheses), parentheses, period, assign and colon emit punctuation
/// (flushing the buffer where the language allows an identifier there),
/// a digit consumes the maximal digit run as one number token, and any other
/// character accumulates, emitting a keyword the instant the buffer equals one.
pub open spec fn scan_from(s: Seq<char>, i: int, st: ScanState) -> Result<Seq<TokenV>, LexError>
    decreases s.len() - i,
        via scan_from_dec
{
    if i < 0 || i >= s.len() {
        Ok(st.toks)
    } else {
        let c = s[i];
        if st.in_quote {
            if c == '"' {
                let full = st.temp.push('"');
                let interior = full.subrange(1, full.len() - 1);
                if is_valid_string_interior(interior) {
                    scan_from(
                        s,
                        i + 1,
                        ScanState {
                            temp: Seq::empty(),
                            in_quote: false,
                            toks: st.toks.push(TokenV { kind: TokenEdition::STRING, lit: full }),
                            ..st
                        },
                    )
                } else {
                    Err(LexError::InvalidStringLiteral)
                }
            } else {
                scan_from(s, i + 1, ScanState { temp: st.temp.push(c), ..st })
            }
        } else if c == '\n' {
            scan_from(s, i + 1, ScanState { temp: Seq::empty(), toks: flush_id(st.toks, st.temp), ..st })
        } else if c == ' ' {
            scan_from(s, i + 1, st)
        } else if c == '"' {
            scan_from(s, i + 1, ScanState { temp: st.temp.push('"'), in_quote: true, ..st })
        } else if c == ',' {
            if st.in_parens {
                let flushed = if st.temp == "false"@ {
                    st.toks.push(TokenV { kind: TokenEdition::FALSE, lit: st.temp })
                } else if st.temp == "true"@ {
                    st.toks.push(TokenV { kind: TokenEdition::TRUE, lit: st.temp })
                } else {
                    flush_id(st.toks, st.temp)
                };
                scan_from(
                    s,
                    i + 1,
                    ScanState {
                        temp: Seq::empty(),
                        toks: flushed.push(TokenV { kind: TokenEdition::COMMA, lit: ","@ }),
                        ..st
                    },
                )
            } else if has_upper(st.temp) {
                Err(LexError::NonLowercaseIdentifier)
            } else {
                scan_from(
                    s,
                    i + 1,
                    ScanState {
                        temp: Seq::empty(),
                        toks: flush_id(st.toks, st.temp).push(
                            TokenV { kind: TokenEdition::COMMA, lit: ","@ },
                        ),
                        ..st
                    },
                )
            }
        } else if c == '(' {
            scan_from(
                s,
                i + 1,
                ScanState {
                    temp: Seq::empty(),
                    in_parens: true,
                    toks: st.toks.push(TokenV { kind: TokenEdition::LPAREN, lit: "("@ }),
                    ..st
                },
            )
        } else if c == ')' {
            scan_from(
                s,
                i + 1,
                ScanState {
                    temp: Seq::empty(),
                    in_parens: false,
                    toks: flush_id(st.toks, st.temp).push(
                        TokenV { kind: TokenEdition::RPAREN, lit: ")"@ },
                    ),
                    ..st
                },
            )
        } else if c == '.' {
            scan_from(
                s,
                i + 1,
                ScanState {
                    temp: Seq::empty(),
                    toks: st.toks.push(TokenV { kind: TokenEdition::PERIOD, lit: "."@ }),
                    ..st
                },
            )
        } else if c == '=' {
            scan_from(
                s,
                i + 1,
                ScanState {
                    temp: Seq::empty(),
                    toks: flush_id(st.toks, st.temp).push(
                        TokenV { kind: TokenEdition::ASSIGN, lit: "="@ },
                    ),
                    ..st
                },
            )
        } else if c == ':' {
            scan_from(
                s,
                i + 1,
                ScanState {
                    temp: Seq::empty(),
                    toks: flush_id(st.toks, st.temp).push(
                        TokenV { kind: TokenEdition::COLON, lit: ":"@ },
                    ),
                    ..st
                },
            )
        } else if is_digit_char(c) {
            let e = digit_run_end(s, i);
            scan_from(
                s,
                e,
                ScanState {
                    temp: Seq::empty(),
                    toks: st.toks.push(TokenV { kind: TokenEdition::NUM, lit: s.subrange(i, e) }),
                    ..st
                },
            )
        } else {
            let grown = st.temp.push(c);
            match keyword_kind(grown) {
                Some(k) => scan_from(
                    s,
                    i + 1,
                    ScanState {
                        temp: Seq::empty(),
                        toks: st.toks.push(TokenV { kind: k, lit: grown }),
                        ..st
                    },
                ),
                None => scan_from(s, i + 1, ScanState { temp: grown, ..st }),
            }
        }
    }
}

#[via_fn]
proof fn scan_from_dec(s: Seq<char>, i: int, st: ScanState) {
    if 0 <= i && i < s.len() {
        if is_digit_char(s[i]) {
            lemma_digit_run_end_bounds(s, i + 1);
        }
    }
}

/// The complete scan of a source text from its first character.
pub open spec fn spec_scan(s: Seq<char>) -> Result<Seq<TokenV>, LexError> {
    scan_from(s, 0, initial_scan_state())
}

/// Relies on String's FromIterator over char: collecting a vector of
/// characters yields the string of exactly those characters, in order.
#[verifier::external_body]
fn chars_to_string(v: &Vec<char>) -> (s: String)
    ensures
        s@ == v@,
{
    v.iter().collect()
}

/// Whether a buffered run equals a given string, character for character.
fn vec_eq_str(v: &Vec<char>, s: &str) -> (r: bool)
    ensures
        r == (v@ == s@),
{
    let n = s.unicode_len();
    if v.len() != n {
        return false;
    }
    let mut i: usize = 0;
    while i < n
        invariant
            n == s@.len(),
            v@.len() == n,
            0 <= i <= n,
            forall|j: int| 0 <= j < i ==> v@[j] == s@[j],
        decreases n - i,
    {
        if v[i] != s.get_char(i) {
            return false;
        }
        i = i + 1;
    }
    proof {
        assert(v@ =~= s@);
    }
    true
}

/// The keyword token recognized by the current buffer, if any, in the same
/// order as the specification.
fn keyword_token(v: &Vec<char>) -> (r: Option<TokenEdition>)
    ensures
        r == keyword_kind(v@),
{
    if vec_eq_str(v, "data") {
        Some(TokenEdition::DATA)
    } else if vec_eq_str(v, "input") {
        Some(TokenEdition::INPUT)
    } else if vec_eq_str(v, "process") {
        Some(TokenEdition::PROCESS)
    } else if vec_eq_str(v, "output") {
        Some(TokenEdition::OUTPUT)
    } else if vec_eq_str(v, "end") {
        Some(TokenEdition::END)
    } else if vec_eq_str(v, "read") {
        Some(TokenEdition::READ)
    } else if vec_eq_str(v, "number") {
        Some(TokenEdition::NUMBER)
    } else if vec_eq_str(v, "vector") {
        Some(TokenEdition::VECTOR)
    } else if vec_eq_str(v, "regressiona") {
        Some(TokenEdition::REGRESSIONA)
    } else if vec_eq_str(v, "regressionb") {
        Some(TokenEdition::REGRESSIONB)
    } else if vec_eq_str(v, "correlation") {
        Some(TokenEdition::CORRELATION)
    } else if vec_eq_str(v, "false") {
        Some(TokenEdition::FALSE)
    } else if vec_eq_str(v, "true") {
        Some(TokenEdition::TRUE)
    } else if vec_eq_str(v, "stddev") {
        Some(TokenEdition::STDDEV)
    } else if vec_eq_str(v, "mean") {
        Some(TokenEdition::MEAN)
    } else {
        None
    }
}

/// Push one token made of a kind and its literal.
fn push_token(toks: &mut Vec<Token>, kind: TokenEdition, lit: String)
    ensures
        toks_view(final(toks)@) == toks_view(old(toks)@).push(TokenV { kind, lit: lit@ }),
{
    let t = Token::new(kind, lit);
    proof {
        lemma_toks_view_push(toks@, t);
    }
    toks.push(t);
}

/// Flush a nonempty buffer as one identifier token.
fn push_id_if_nonempty(toks: &mut Vec<Token>, temp: &Vec<char>)
    ensures
        toks_view(final(toks)@) == flush_id(toks_view(old(toks)@), temp@),
{
    if temp.len() > 0 {
        let lit = chars_to_string(temp);
        let t = Token::new(TokenEdition::ID, lit);
        proof {
            lemma_toks_view_push(toks@, t);
        }
        toks.push(t);
    }
}

/// Scan a whole source text into its token sequence, or fail with the first
/// lexical error, exactly as `spec_scan` states.
pub fn scan(src: &str) -> (r: Result<Vec<Token>, LexError>)
    ensures
        match r {
            Ok(v) => spec_scan(src@) == Ok::<Seq<TokenV>, LexError>(toks_view(v@)),
            Err(e) => spec_scan(src@) == Err::<Seq<TokenV>, LexError>(e),
        },
{
    let n = src.unicode_len();
    let mut toks: Vec<Token> = Vec::new();
    let mut temp: Vec<char> = Vec::new();
    let mut in_quote = false;
    let mut in_parens = false;
    let mut i: usize = 0;
    proof {
        assert(toks_view(toks@) =~= Seq::<TokenV>::empty());
    }
    while i < n
        invariant
            n == src@.len(),
            0 <= i <= n,
            in_quote ==> temp@.len() >= 1,
            spec_scan(src@) == scan_from(
                src@,
                i as int,
                (ScanState { temp: temp@, in_quote, in_parens, toks: toks_view(toks@) }),
            ),
        decreases n - i,
    {
        let c = src.get_char(i);
        if in_quote {
            if c == '"' {
                temp.push('"');
                if quoted_interior_ok(&temp) {
                    let lit = chars_to_string(&temp);
                    push_token(&mut toks, TokenEdition::STRING, lit);
                    temp.clear();
                    in_quote = false;
                    i = i + 1;
                } else {
                    return Err(LexError::InvalidStringLiteral);
                }
            } else {
                temp.push(c);
                i = i + 1;
            }
        } else if c == '\n' {
            push_id_if_nonempty(&mut toks, &temp);
            temp.clear();
            i = i + 1;
        } else if c == ' ' {
            i = i + 1;
        } else if c == '"' {
            temp.push('"');
            in_quote = true;
            i = i + 1;
        } else if c == ',' {
            if in_parens {
                if vec_eq_str(&temp, "false") {
                    let lit = chars_to_string(&temp);
                    push_token(&mut toks, TokenEdition::FALSE, lit);
                } else if vec_eq_str(&temp, "true") {
                    let lit = chars_to_string(&temp);
                    push_token(&mut toks, TokenEdition::TRUE, lit);
                } else {
                    push_id_if_nonempty(&mut toks, &temp);
                }
                temp.clear();
                push_token(&mut toks, TokenEdition::COMMA, String::from_str(","));
                i = i + 1;
            } else {
                if contains_upper(&temp) {
                    return Err(LexError::NonLowercaseIdentifier);
                }
                push_id_if_nonempty(&mut toks, &temp);
                temp.clear();
                push_token(&mut toks, TokenEdition::COMMA, String::from_str(","));
                i = i + 1;
            }
        } else if c == '(' {
            push_token(&mut toks, TokenEdition::LPAREN, String::from_str("("));
            in_parens = true;
            temp.clear();
            i = i + 1;
        } else if c == ')' {
            push_id_if_nonempty(&mut toks, &temp);
            temp.clear();
            push_token(&mut toks, TokenEdition::RPAREN, String::from_str(")"));
            in_parens = false;
            i = i + 1;
        } else if c == '.' {
            push_token(&mut toks, TokenEdition::PERIOD, String::from_str("."));
            temp.clear();
            i = i + 1;
        } else if c == '=' {
            push_id_if_nonempty(&mut toks, &temp);
            temp.clear();
            push_token(&mut toks, TokenEdition::ASSIGN, String::from_str("="));
            i = i + 1;
        } else if c == ':' {
            push_id_if_nonempty(&mut toks, &temp);
            temp.clear();
            push_token(&mut toks, TokenEdition::COLON, String::from_str(":"));
            i = i + 1;
        } else if digit_char(c) {
            let mut j: usize = i;
            let mut num: Vec<char> = Vec::new();
            let mut stop = false;
            while !stop && j < n
                invariant
                    n == src@.len(),
                    0 <= i <= j <= n,
                    num@ == src@.subrange(i as int, j as int),
                    forall|k: int| i <= k < j ==> is_digit_char(#[trigger] src@[k]),
                    stop ==> (j == n || !is_digit_char(src@[j as int])),
                decreases n - j + (if stop { 0int } else { 1int }),
            {
                let cj = src.get_char(j);
                if digit_char(cj) {
                    num.push(cj);
                    proof {
                        assert(num@ =~= src@.subrange(i as int, j as int + 1));
                    }
                    j = j + 1;
                } else {
                    stop = true;
                }
            }
            proof {
                lemma_digit_run_end_is(src@, i as int, j as int);
            }
            let lit = chars_to_string(&num);
            push_token(&mut toks, TokenEdition::NUM, lit);
            temp.clear();
            i = j;
        } else {
            temp.push(c);
            match keyword_token(&temp) {
                Some(k) => {
                    let lit = chars_to_string(&temp);
                    push_token(&mut toks, k, lit);
                    temp.clear();
                },
                None => {},
            }
            i = i + 1;
        }
    }
    Ok(toks)
}

} // verus!

//! Laws of the translator, stated over the specification functions and
//! proved once and for all: lockstep emission of the two dialects,
//! determinism of translation, the arity boundaries of the statistic
//! functions, and the rejection of ill-formed string literals.

use vstd::prelude::*;

use crate::classes::{
    has_upper, is_allowed_string_char, is_digit_char, is_upper_char, is_valid_id,
    is_valid_string_interior,
};
use crate::lexer::{
    digit_run_end, flush_id, initial_scan_state, keyword_kind, lemma_digit_run_end_bounds,
    scan_from, spec_scan, ScanState,
};
use crate::parser::{
    one_arg_stat, sp_data_defs, sp_input_op, sp_input_ops, sp_input_ops_rest, sp_output_op,
    sp_output_ops, sp_output_ops_rest, sp_process_op, sp_process_ops, sp_process_ops_rest,
    sp_program, spec_translate, two_arg_stat, Expectation, ParseError, TranslateError,
};
use crate::token::{TokenEdition, TokenV};

verus! {

/// Every input-op after the first emits one line to each dialect, so the
/// remainder of the input section keeps both buffers in lockstep.
pub proof fn lemma_input_ops_rest_counts(t: Seq<TokenV>, i: int)
    ensures
        sp_input_ops_rest(t, i) matches Ok((k, ss, pp)) ==> ss.len() == pp.len(),
    decreases t.len() - i,
{
    if i + 1 < t.len() && t[i + 1].kind == TokenEdition::COMMA {
        if sp_input_op(t, i + 1) is Ok {
            lemma_input_ops_rest_counts(t, sp_input_op(t, i + 1)->Ok_0.0);
        }
    }
}

/// A recognized input section emits the same number of lines, at least one,
/// to each dialect.
pub proof fn lemma_input_ops_counts(t: Seq<TokenV>, i: int)
    ensures
        sp_input_ops(t, i) matches Ok((k, ss, pp)) ==> ss.len() == pp.len() && pp.len() >= 1,
{
    if sp_input_op(t, i) is Ok {
        lemma_input_ops_rest_counts(t, sp_input_op(t, i)->Ok_0.0);
    }
}

/// Every process-op after the first emits one line to each dialect.
pub proof fn lemma_process_ops_rest_counts(t: Seq<TokenV>, i: int)
    ensures
        sp_process_ops_rest(t, i) matches Ok((k, ss, pp)) ==> ss.len() == pp.len(),
    decreases t.len() - i,
{
    if i + 1 < t.len() && t[i + 1].kind == TokenEdition::COMMA {
        if sp_process_op(t, i + 1) is Ok {
            lemma_process_ops_rest_counts(t, sp_process_op(t, i + 1)->Ok_0.0);
        }
    }
}

/// A recognized process section emits the same number of lines, at least
/// one, to each dialect.
pub proof fn lemma_process_ops_counts(t: Seq<TokenV>, i: int)
    ensures
        sp_process_ops(t, i) matches Ok((k, ss, pp)) ==> ss.len() == pp.len() && pp.len() >= 1,
{
    if sp_process_op(t, i) is Ok {
        lemma_process_ops_rest_counts(t, sp_process_op(t, i)->Ok_0.0);
    }
}

/// Every output-op after the first emits one line to the Prolog-like
/// dialect and two (a newline line and the display line) to the Scheme-like
/// dialect.
pub proof fn lemma_output_ops_rest_counts(t: Seq<TokenV>, i: int)
    ensures
        sp_output_ops_rest(t, i) matches Ok((k, ss, pp)) ==> ss.len() == 2 * pp.len(),
    decreases t.len() - i,
{
    if i + 1 < t.len() && t[i + 1].kind == TokenEdition::COMMA {
        if sp_output_op(t, i + 1) is Ok {
            lemma_output_ops_rest_counts(t, sp_output_op(t, i + 1)->Ok_0.0);
        }
    }
}

/// A recognized output section of n ops emits n Prolog-like lines and
/// 2n - 1 Scheme-like lines: one display line per op and a newline line
/// between successive ops, none after the last.
pub proof fn lemma_output_ops_counts(t: Seq<TokenV>, i: int)
    ensures
        sp_output_ops(t, i) matches Ok((k, ss, pp)) ==> ss.len() == 2 * pp.len() - 1 && pp.len()
            >= 1,
{
    if sp_output_op(t, i) is Ok {
        lemma_output_ops_rest_counts(t, sp_output_op(t, i)->Ok_0.0);
    }
}

/// For every recognized program the two dialects are generated in the same
/// number of logical steps: some numbers of input-ops, process-ops and
/// output-ops, each at least one, fix the lengths of both buffers (the
/// data section emits nothing; the Scheme-like buffer additionally holds
/// one newline line between successive output lines).
pub proof fn lemma_dialects_in_lockstep(
    t: Seq<TokenV>,
    i: int,
    j: int,
    ss: Seq<Seq<char>>,
    pp: Seq<Seq<char>>,
) -> (counts: (int, int, int))
    requires
        sp_program(t, i) == Ok::<(int, Seq<Seq<char>>, Seq<Seq<char>>), ParseError>((j, ss, pp)),
    ensures
        counts.0 >= 1 && counts.1 >= 1 && counts.2 >= 1,
        pp.len() == counts.0 + counts.1 + counts.2,
        ss.len() == counts.0 + counts.1 + (2 * counts.2 - 1),
{
    let j1 = sp_data_defs(t, i + 1)->Ok_0;
    let inr = sp_input_ops(t, j1)->Ok_0;
    let prr = sp_process_ops(t, inr.0)->Ok_0;
    let our = sp_output_ops(t, prr.0)->Ok_0;
    lemma_input_ops_counts(t, j1);
    lemma_process_ops_counts(t, inr.0);
    lemma_output_ops_counts(t, prr.0);
    assert(ss == inr.1 + prr.1 + our.1);
    assert(pp == inr.2 + prr.2 + our.2);
    (inr.2.len() as int, prr.2.len() as int, our.2.len() as int)
}

/// Translation is a function of the source text alone: two translations of
/// the same source yield identical results, so the generated line sequences
/// (and their counts) are deterministic and translating twice is
/// byte-identical for either dialect.
pub proof fn lemma_translation_deterministic(
    s: Seq<char>,
    r1: Result<(Seq<Seq<char>>, Seq<Seq<char>>), TranslateError>,
    r2: Result<(Seq<Seq<char>>, Seq<Seq<char>>), TranslateError>,
)
    requires
        r1 == spec_translate(s),
        r2 == spec_translate(s),
    ensures
        r1 == r2,
{
}

/// A one-argument statistic (mean or stddev) applied to a second argument
/// is rejected: the comma after the first argument fails the closing
/// parenthesis expectation.
pub proof fn lemma_one_arg_stat_rejects_second_argument(t: Seq<TokenV>, i: int)
    requires
        0 <= i,
        i + 6 < t.len(),
        t[i + 1].kind == TokenEdition::ID,
        is_valid_id(t[i + 1].lit),
        t[i + 2].kind == TokenEdition::ASSIGN,
        one_arg_stat(t[i + 3].kind),
        t[i + 4].kind == TokenEdition::LPAREN,
        t[i + 5].kind == TokenEdition::ID,
        is_valid_id(t[i + 5].lit),
        t[i + 6].kind == TokenEdition::COMMA,
    ensures
        sp_process_op(t, i) == Err::<(int, Seq<char>, Seq<char>), ParseError>(
            ParseError::WrongToken {
                expected: Expectation::Kind(TokenEdition::RPAREN),
                found: TokenEdition::COMMA,
            },
        ),
{
}

/// A two-argument statistic (correlation, regressiona or regressionb)
/// applied to a single argument is rejected: the closing parenthesis after
/// the first argument fails the comma expectation.
pub proof fn lemma_two_arg_stat_rejects_single_argument(t: Seq<TokenV>, i: int)
    requires
        0 <= i,
        i + 6 < t.len(),
        t[i + 1].kind == TokenEdition::ID,
        is_valid_id(t[i + 1].lit),
        t[i + 2].kind == TokenEdition::ASSIGN,
        two_arg_stat(t[i + 3].kind),
        t[i + 4].kind == TokenEdition::LPAREN,
        t[i + 5].kind == TokenEdition::ID,
        is_valid_id(t[i + 5].lit),
        t[i + 6].kind == TokenEdition::RPAREN,
    ensures
        sp_process_op(t, i) == Err::<(int, Seq<char>, Seq<char>), ParseError>(
            ParseError::WrongToken {
                expected: Expectation::Kind(TokenEdition::COMMA),
                found: TokenEdition::RPAREN,
            },
        ),
{
}

/// What a token's literal records of the source, by kind: keywords and
/// punctuation their exact spelling, booleans `true`/`false`, identifiers a
/// nonempty run, numbers a nonempty digit run, strings a validly delimited
/// literal.
pub open spec fn token_lit_wf(tok: TokenV) -> bool {
    &&& tok.kind == TokenEdition::DATA ==> tok.lit == "data"@
    &&& tok.kind == TokenEdition::INPUT ==> tok.lit == "input"@
    &&& tok.kind == TokenEdition::PROCESS ==> tok.lit == "process"@
    &&& tok.kind == TokenEdition::OUTPUT ==> tok.lit == "output"@
    &&& tok.kind == TokenEdition::END ==> tok.lit == "end"@
    &&& tok.kind == TokenEdition::READ ==> tok.lit == "read"@
    &&& tok.kind == TokenEdition::NUMBER ==> tok.lit == "number"@
    &&& tok.kind == TokenEdition::VECTOR ==> tok.lit == "vector"@
    &&& tok.kind == TokenEdition::REGRESSIONA ==> tok.lit == "regressiona"@
    &&& tok.kind == TokenEdition::REGRESSIONB ==> tok.lit == "regressionb"@
    &&& tok.kind == TokenEdition::CORRELATION ==> tok.lit == "correlation"@
    &&& tok.kind == TokenEdition::STDDEV ==> tok.lit == "stddev"@
    &&& tok.kind == TokenEdition::MEAN ==> tok.lit == "mean"@
    &&& tok.kind == TokenEdition::TRUE ==> tok.lit == "true"@
    &&& tok.kind == TokenEdition::FALSE ==> tok.lit == "false"@
    &&& tok.kind == TokenEdition::COMMA ==> tok.lit == ","@
    &&& tok.kind == TokenEdition::COLON ==> tok.lit == ":"@
    &&& tok.kind == TokenEdition::PERIOD ==> tok.lit == "."@
    &&& tok.kind == TokenEdition::LPAREN ==> tok.lit == "("@
    &&& tok.kind == TokenEdition::RPAREN ==> tok.lit == ")"@
    &&& tok.kind == TokenEdition::ASSIGN ==> tok.lit == "="@
    &&& tok.kind == TokenEdition::ID ==> tok.lit.len() >= 1
    &&& tok.kind == TokenEdition::NUM ==> tok.lit.len() >= 1 && (forall|k: int|
        0 <= k < tok.lit.len() ==> is_digit_char(#[trigger] tok.lit[k]))
    &&& tok.kind == TokenEdition::STRING ==> tok.lit.len() >= 2 && tok.lit[tok.lit.len() - 1]
        == '"' && is_valid_string_interior(tok.lit.subrange(1, tok.lit.len() - 1))
}

/// Every token of a sequence has a well-formed literal.
pub open spec fn all_lits_wf(ts: Seq<TokenV>) -> bool {
    forall|k: int| 0 <= k < ts.len() ==> token_lit_wf(#[trigger] ts[k])
}

proof fn lemma_wf_push(ts: Seq<TokenV>, tok: TokenV)
    requires
        all_lits_wf(ts),
        token_lit_wf(tok),
    ensures
        all_lits_wf(ts.push(tok)),
{
    assert forall|k: int| 0 <= k < ts.push(tok).len() implies token_lit_wf(
        #[trigger] ts.push(tok)[k],
    ) by {
        if k < ts.len() {
            assert(ts.push(tok)[k] == ts[k]);
        }
    }
}

proof fn lemma_wf_flush(ts: Seq<TokenV>, temp: Seq<char>)
    requires
        all_lits_wf(ts),
    ensures
        all_lits_wf(flush_id(ts, temp)),
{
    if temp.len() > 0 {
        lemma_wf_push(ts, TokenV { kind: TokenEdition::ID, lit: temp });
    }
}

/// Every position of the maximal digit run starting at i holds a digit.
proof fn lemma_digit_run_all_digits(s: Seq<char>, i: int)
    requires
        0 <= i <= s.len(),
    ensures
        forall|k: int| i <= k < digit_run_end(s, i) ==> is_digit_char(#[trigger] s[k]),
    decreases s.len() - i,
{
    if i < s.len() && is_digit_char(s[i]) {
        lemma_digit_run_all_digits(s, i + 1);
    }
}

proof fn lemma_scan_from_lits_wf(s: Seq<char>, i: int, st: ScanState)
    requires
        0 <= i,
        st.in_quote ==> st.temp.len() >= 1,
        all_lits_wf(st.toks),
    ensures
        scan_from(s, i, st) matches Ok(ts) ==> all_lits_wf(ts),
    decreases s.len() - i,
{
    if i >= s.len() {
        return;
    }
    let c = s[i];
    if st.in_quote {
        if c == '"' {
            let full = st.temp.push('"');
            let interior = full.subrange(1, full.len() - 1);
            if is_valid_string_interior(interior) {
                let tok = TokenV { kind: TokenEdition::STRING, lit: full };
                lemma_wf_push(st.toks, tok);
                lemma_scan_from_lits_wf(
                    s,
                    i + 1,
                    ScanState { temp: Seq::empty(), in_quote: false, toks: st.toks.push(tok), ..st },
                );
            }
        } else {
            lemma_scan_from_lits_wf(s, i + 1, ScanState { temp: st.temp.push(c), ..st });
        }
    } else if c == '\n' {
        lemma_wf_flush(st.toks, st.temp);
        lemma_scan_from_lits_wf(
            s,
            i + 1,
            ScanState { temp: Seq::empty(), toks: flush_id(st.toks, st.temp), ..st },
        );
    } else if c == ' ' {
        lemma_scan_from_lits_wf(s, i + 1, st);
    } else if c == '"' {
        lemma_scan_from_lits_wf(s, i + 1, ScanState { temp: st.temp.push('"'), in_quote: true, ..st });
    } else if c == ',' {
        if st.in_parens {
            let flushed = if st.temp == "false"@ {
                st.toks.push(TokenV { kind: TokenEdition::FALSE, lit: st.temp })
            } else if st.temp == "true"@ {
                st.toks.push(TokenV { kind: TokenEdition::TRUE, lit: st.temp })
            } else {
                flush_id(st.toks, st.temp)
            };
            if st.temp == "false"@ {
                lemma_wf_push(st.toks, TokenV { kind: TokenEdition::FALSE, lit: st.temp });
            } else if st.temp == "true"@ {
                lemma_wf_push(st.toks, TokenV { kind: TokenEdition::TRUE, lit: st.temp });
            } else {
                lemma_wf_flush(st.toks, st.temp);
            }
            lemma_wf_push(flushed, TokenV { kind: TokenEdition::COMMA, lit: ","@ });
            lemma_scan_from_lits_wf(
                s,
                i + 1,
                ScanState {
                    temp: Seq::empty(),
                    toks: flushed.push(TokenV { kind: TokenEdition::COMMA, lit: ","@ }),
                    ..st
                },
            );
        } else if !has_upper(st.temp) {
            lemma_wf_flush(st.toks, st.temp);
            lemma_wf_push(
                flush_id(st.toks, st.temp),
                TokenV { kind: TokenEdition::COMMA, lit: ","@ },
            );
            lemma_scan_from_lits_wf(
                s,
                i + 1,
                ScanState {
                    temp: Seq::empty(),
                    toks: flush_id(st.toks, st.temp).push(
                        TokenV { kind: TokenEdition::COMMA, lit: ","@ },
                    ),
                    ..st
                },
            );
        }
    } else if c == '(' {
        lemma_wf_push(st.toks, TokenV { kind: TokenEdition::LPAREN, lit: "("@ });
        lemma_scan_from_lits_wf(
            s,
            i + 1,
            ScanState {
                temp: Seq::empty(),
                in_parens: true,
                toks: st.toks.push(TokenV { kind: TokenEdition::LPAREN, lit: "("@ }),
                ..st
            },
        );
    } else if c == ')' {
        lemma_wf_flush(st.toks, st.temp);
        lemma_wf_push(flush_id(st.toks, st.temp), TokenV { kind: TokenEdition::RPAREN, lit: ")"@ });
        lemma_scan_from_lits_wf(
            s,
            i + 1,
            ScanState {
                temp: Seq::empty(),
                in_parens: false,
                toks: flush_id(st.toks, st.temp).push(
                    TokenV { kind: TokenEdition::RPAREN, lit: ")"@ },
                ),
                ..st
            },
        );
    } else if c == '.' {
        lemma_wf_push(st.toks, TokenV { kind: TokenEdition::PERIOD, lit: "."@ });
        lemma_scan_from_lits_wf(
            s,
            i + 1,
            ScanState {
                temp: Seq::empty(),
                toks: st.toks.push(TokenV { kind: TokenEdition::PERIOD, lit: "."@ }),
                ..st
            },
        );
    } else if c == '=' {
        lemma_wf_flush(st.toks, st.temp);
        lemma_wf_push(flush_id(st.toks, st.temp), TokenV { kind: TokenEdition::ASSIGN, lit: "="@ });
        lemma_scan_from_lits_wf(
            s,
            i + 1,
            ScanState {
                temp: Seq::empty(),
                toks: flush_id(st.toks, st.temp).push(
                    TokenV { kind: TokenEdition::ASSIGN, lit: "="@ },
                ),
                ..st
            },
        );
    } else if c == ':' {
        lemma_wf_flush(st.toks, st.temp);
        lemma_wf_push(flush_id(st.toks, st.temp), TokenV { kind: TokenEdition::COLON, lit: ":"@ });
        lemma_scan_from_lits_wf(
            s,
            i + 1,
            ScanState {
                temp: Seq::empty(),
                toks: flush_id(st.toks, st.temp).push(
                    TokenV { kind: TokenEdition::COLON, lit: ":"@ },
                ),
                ..st
            },
        );
    } else if is_digit_char(c) {
        let e = digit_run_end(s, i);
        lemma_digit_run_end_bounds(s, i + 1);
        lemma_digit_run_all_digits(s, i);
        let tok = TokenV { kind: TokenEdition::NUM, lit: s.subrange(i, e) };
        assert(token_lit_wf(tok)) by {
            assert forall|k: int| 0 <= k < tok.lit.len() implies is_digit_char(
                #[trigger] tok.lit[k],
            ) by {
                assert(tok.lit[k] == s[i + k]);
            }
        }
        lemma_wf_push(st.toks, tok);
        lemma_scan_from_lits_wf(
            s,
            e,
            ScanState { temp: Seq::empty(), toks: st.toks.push(tok), ..st },
        );
    } else {
        let grown = st.temp.push(c);
        match keyword_kind(grown) {
            Some(k) => {
                lemma_wf_push(st.toks, TokenV { kind: k, lit: grown });
                lemma_scan_from_lits_wf(
                    s,
                    i + 1,
                    ScanState {
                        temp: Seq::empty(),
                        toks: st.toks.push(TokenV { kind: k, lit: grown }),
                        ..st
                    },
                );
            },
            None => {
                lemma_scan_from_lits_wf(s, i + 1, ScanState { temp: grown, ..st });
            },
        }
    }
}

/// The provable core of the scanner's round trip: no information about
/// literal classes is lost. In every successful scan each keyword,
/// punctuation and boolean token carries exactly its source spelling, each
/// identifier a nonempty run, each number a nonempty digit run taken
/// verbatim from the source, and each string literal a validly delimited
/// literal.
pub proof fn lemma_scan_preserves_literal_classes(s: Seq<char>)
    ensures
        spec_scan(s) matches Ok(ts) ==> all_lits_wf(ts),
{
    lemma_scan_from_lits_wf(s, 0, initial_scan_state());
}

/// An uppercase ASCII letter is outside the class a string literal allows.
pub proof fn lemma_upper_not_allowed(c: char)
    requires
        is_upper_char(c),
    ensures
        !is_allowed_string_char(c),
{
}

/// A string-literal interior holding any character outside the allowed
/// class is invalid, so the scanner rejects the literal.
pub proof fn lemma_bad_string_interior_rejected(v: Seq<char>, i: int)
    requires
        0 <= i < v.len(),
        !is_allowed_string_char(v[i]),
    ensures
        !is_valid_string_interior(v),
{
}

/// A string-literal interior holding an uppercase letter is invalid.
pub proof fn lemma_uppercase_string_interior_rejected(v: Seq<char>, i: int)
    requires
        0 <= i < v.len(),
        is_upper_char(v[i]),
    ensures
        !is_valid_string_interior(v),
{
    lemma_upper_not_allowed(v[i]);
    lemma_bad_string_interior_rejected(v, i);
}

} // verus!

//! Lexical tokens and their mathematical model.

use vstd::prelude::*;

verus! {

/// The closed set of lexical token kinds of the source language:
/// structural keywords, punctuation, literal classes, type keywords,
/// the load primitive and the statistic-function keywords.
#[derive(Debug, PartialEq, Eq, Clone, Copy, Structural)]
pub enum TokenEdition {
    DATA,
    INPUT,
    PROCESS,
    OUTPUT,
    END,
    ID,
    NUM,
    TRUE,
    FALSE,
    READ,
    COLON,
    COMMA,
    PERIOD,
    LPAREN,
    RPAREN,
    ASSIGN,
    VECTOR,
    NUMBER,
    REGRESSIONA,
    REGRESSIONB,
    MEAN,
    STDDEV,
    CORRELATION,
    STRING,
}

/// Model of a token: its kind and the exact source substring it was read from.
pub ghost struct TokenV {
    pub kind: TokenEdition,
    pub lit: Seq<char>,
}

/// One lexical unit: a classification and the exact source substring
/// (for strings, including both quote delimiters).
#[derive(Debug)]
pub struct Token {
    pub kind: TokenEdition,
    pub literal: String,
}

impl View for Token {
    type V = TokenV;

    open spec fn view(&self) -> TokenV {
        TokenV { kind: self.kind, lit: self.literal@ }
    }
}

impl Token {
    pub fn new(kind: TokenEdition, literal: String) -> (t: Token)
        ensures
            t@ == (TokenV { kind, lit: literal@ }),
    {
        Token { kind, literal }
    }
}

/// The sequence of token models under a sequence of tokens.
pub open spec fn toks_view(ts: Seq<Token>) -> Seq<TokenV> {
    ts.map_values(|t: Token| t@)
}

pub proof fn lemma_toks_view_push(ts: Seq<Token>, t: Token)
    ensures
        toks_view(ts.push(t)) == toks_view(ts).push(t@),
{
    assert(toks_view(ts.push(t)) =~= toks_view(ts).push(t@));
}

/// The sequence of character sequences under a buffer of generated lines.
pub open spec fn lines_view(v: Seq<String>) -> Seq<Seq<char>> {
    v.map_values(|s: String| s@)
}

pub proof fn lemma_lines_view_push(v: Seq<String>, s: String)
    ensures
        lines_view(v.push(s)) == lines_view(v).push(s@),
{
    assert(lines_view(v.push(s)) =~= lines_view(v).push(s@));
}

} // verus!

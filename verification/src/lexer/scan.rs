//! What lexing a whole source yields, one scan at a time.
use vstd::prelude::*;
use super::chars::{spec_is_alpha, spec_is_digit, spec_is_ident_char, spec_is_whitespace, spec_scan_char};
use super::comments::{block_end, doc_end, line_end};
use super::error::LexError;
use super::keywords::{is_ident_run_end, keyword_token};
use super::numbers::{spec_scan_number, NumScan};
use super::operators::{is_op_start, operator_token, punct_token};
use super::source::Source;
use super::strings::string_close;
use super::token::{Span, Token};

verus! {

/// The kinds of token that carry text.
pub enum TextKind {
    Float,
    Str,
    Ident,
    Doc,
}

/// A token as the scan describes it: one without text exactly, one with
/// text by its kind and characters.
pub enum TokenShape {
    Exact(Token),
    Text(TextKind, Seq<char>),
}

/// Whether `t` is the token that `s` describes.
pub open spec fn token_fits(t: Token, s: TokenShape) -> bool {
    match s {
        TokenShape::Exact(x) => t == x,
        TokenShape::Text(k, txt) => match k {
            TextKind::Float => t matches Token::Float(x) && x@ == txt,
            TextKind::Str => t matches Token::Str(x) && x@ == txt,
            TextKind::Ident => t matches Token::Ident(x) && x@ == txt,
            TextKind::Doc => t matches Token::DocComment(x) && x@ == txt,
        },
    }
}

/// An error as the scan describes it: exactly, or, for an identifier
/// character right after a numeric literal, by the literal's characters.
pub enum ErrorShape {
    Exact(LexError),
    IdentAfter(usize, Seq<char>, char),
}

/// Whether `e` is the error that `s` describes.
pub open spec fn error_fits(e: LexError, s: ErrorShape) -> bool {
    match s {
        ErrorShape::Exact(x) => e == x,
        ErrorShape::IdentAfter(start, lit, ch) => e matches LexError::IdentAfterNumericLiteral { start: a, literal, ch: c }
            && a == start && literal@ == lit && c == ch,
    }
}

/// The outcome of one scan: a token with its span and the index where the
/// next scan starts, no token (a plain or block comment) and that index, or
/// an error.
pub enum Step {
    Emit(TokenShape, Span, int),
    Skip(int),
    Fail(ErrorShape),
}

/// The index of the first non-whitespace character at or after `i`.
pub open spec fn ws_end(src: &Source, i: int) -> int
    decreases src.n() - i,
{
    if i >= src.n() || i < 0 || !spec_is_whitespace(src.chars@[i]) {
        i
    } else {
        ws_end(src, i + 1)
    }
}

/// The index just past the run of identifier characters starting at `i`.
pub open spec fn ident_end(src: &Source, i: int) -> int
    decreases src.n() - i,
{
    if i >= src.n() || i < 0 || !spec_is_ident_char(src.chars@[i]) {
        i
    } else {
        ident_end(src, i + 1)
    }
}

/// A run of identifier characters from `i` ends at `ident_end(src, i)`.
pub proof fn lemma_ident_end(src: &Source, i: int, j: int)
    requires
        0 <= i,
        is_ident_run_end(src, i, j),
    ensures
        ident_end(src, i) == j,
    decreases j - i,
{
    if i < j {
        assert(spec_is_ident_char(src.chars@[i]));
        lemma_ident_end(src, i + 1, j);
    }
}

/// What one scan at index `i`, a character that is not whitespace, yields.
/// The character decides the kind of token: `#` a comment, `"` a string, a
/// digit a number, a letter or `_` an identifier or keyword, `'` a
/// character literal, an operator character the longest operator, and
/// otherwise one punctuation character.
pub open spec fn scan_step(src: &Source, i: int) -> Step {
    let c = src.chars@[i];
    let pos = src.spec_off(i) as usize;
    if c == '#' {
        if !src.is_hash(i + 1) {
            Step::Skip(line_end(src, i + 1))
        } else if !src.is_hash(i + 2) {
            match block_end(src, i + 2) {
                Some(e) => Step::Skip(e),
                None => Step::Fail(ErrorShape::Exact(LexError::UnterminatedBlockComment { start: pos })),
            }
        } else {
            match doc_end(src, i + 3, i + 3) {
                Some((ce, e)) => Step::Emit(
                    TokenShape::Text(TextKind::Doc, src.chars@.subrange(i + 3, ce)), Span { start: pos, end: src.spec_off(ce) as usize }, e),
                None => Step::Fail(ErrorShape::Exact(LexError::UnterminatedDocComment { start: pos })),
            }
        }
    } else if c == '"' {
        match string_close(src, i + 1, pos) {
            Ok(close) => Step::Emit(
                TokenShape::Text(TextKind::Str, src.chars@.subrange(i + 1, close)), Span { start: pos, end: src.spec_off(close + 1) as usize }, close + 1),
            Err(e) => Step::Fail(ErrorShape::Exact(e)),
        }
    } else if spec_is_digit(c) {
        let (outcome, e) = spec_scan_number(src, i + 1, pos, c);
        match outcome {
            NumScan::Int(v) => Step::Emit(TokenShape::Exact(Token::Integer(v as i64)), Span { start: pos, end: src.spec_off(e) as usize }, e),
            NumScan::Float(t) => Step::Emit(TokenShape::Text(TextKind::Float, t), Span { start: pos, end: src.spec_off(e) as usize }, e),
            NumScan::Fail(err) => Step::Fail(ErrorShape::Exact(err)),
            NumScan::IdentAfter(lit, ch) => Step::Fail(ErrorShape::IdentAfter(pos, lit, ch)),
        }
    } else if spec_is_alpha(c) || c == '_' {
        let e = ident_end(src, i);
        let word = src.chars@.subrange(i, e);
        match keyword_token(word) {
            Some(k) => Step::Emit(TokenShape::Exact(k), Span { start: pos, end: src.spec_off(e) as usize }, e),
            None => Step::Emit(TokenShape::Text(TextKind::Ident, word), Span { start: pos, end: src.spec_off(e) as usize }, e),
        }
    } else if c == '\'' {
        match spec_scan_char(src, i + 1, pos) {
            Ok((tok, span, next)) => Step::Emit(TokenShape::Exact(tok), span, next as int),
            Err(e) => Step::Fail(ErrorShape::Exact(e)),
        }
    } else if is_op_start(c) {
        let next = if i + 1 < src.n() { Some(src.chars@[i + 1]) } else { None::<char> };
        let (tok, two) = operator_token(c, next);
        let e = if two { i + 2 } else { i + 1 };
        Step::Emit(TokenShape::Exact(tok), Span { start: pos, end: src.spec_off(e) as usize }, e)
    } else {
        match punct_token(c) {
            Some(tok) => Step::Emit(TokenShape::Exact(tok), Span { start: pos, end: src.spec_off(i + 1) as usize }, i + 1),
            None => Step::Fail(ErrorShape::Exact(LexError::UnrecognizedCharacter { byte: pos, ch: c })),
        }
    }
}

/// Lexing from index `i` succeeds with exactly the tokens `toks`: after
/// whitespace, the end of input gives a final `Eof` at the total byte
/// length, and otherwise each scan contributes its token (if any) and lexing
/// goes on where it stopped.
pub open spec fn lexes_from(src: &Source, i: int, toks: Seq<(Token, Span)>) -> bool
    decreases src.n() - i,
{
    let j = ws_end(src, i);
    let n = src.n();
    if j >= n {
        toks == seq![(Token::Eof, Span { start: src.spec_off(n) as usize, end: src.spec_off(n) as usize })]
    } else {
        match scan_step(src, j) {
            Step::Emit(shape, span, next) => {
                &&& i < next <= n
                &&& toks.len() > 0
                &&& token_fits(toks[0].0, shape)
                &&& toks[0].1 == span
                &&& lexes_from(src, next, toks.drop_first())
            },
            Step::Skip(next) => i < next <= n && lexes_from(src, next, toks),
            Step::Fail(_) => false,
        }
    }
}

/// Lexing from index `i` fails with the error `e`: the first scan that
/// fails reports it.
pub open spec fn fails_from(src: &Source, i: int, e: LexError) -> bool
    decreases src.n() - i,
{
    let j = ws_end(src, i);
    let n = src.n();
    if j >= n {
        false
    } else {
        match scan_step(src, j) {
            Step::Emit(_, _, next) => i < next <= n && fails_from(src, next, e),
            Step::Skip(next) => i < next <= n && fails_from(src, next, e),
            Step::Fail(shape) => error_fits(e, shape),
        }
    }
}

/// Lexing the text `text` yields exactly the tokens `toks`, under the
/// character/offset table of that text.
pub open spec fn lexes_text(text: Seq<char>, toks: Seq<(Token, Span)>) -> bool {
    exists|src: Source| src.wf() && src.chars@ == text && #[trigger] lexes_from(&src, 0, toks)
}

/// Lexing the text `text` fails with the error `e`.
pub open spec fn lex_fails_with(text: Seq<char>, e: LexError) -> bool {
    exists|src: Source| src.wf() && src.chars@ == text && #[trigger] fails_from(&src, 0, e)
}

/// A source cannot both lex and fail to lex.
pub proof fn lemma_lexes_or_fails(src: &Source, i: int, toks: Seq<(Token, Span)>, e: LexError)
    ensures
        !(lexes_from(src, i, toks) && fails_from(src, i, e)),
    decreases src.n() - i,
{
    let j = ws_end(src, i);
    if j < src.n() {
        match scan_step(src, j) {
            Step::Emit(_, _, next) => {
                if i < next <= src.n() {
                    lemma_lexes_or_fails(src, next, toks.drop_first(), e);
                }
            },
            Step::Skip(next) => {
                if i < next <= src.n() {
                    lemma_lexes_or_fails(src, next, toks, e);
                }
            },
            Step::Fail(_) => {},
        }
    }
}

} // verus!

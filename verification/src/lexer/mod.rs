//! Turns source text into a sequence of tokens with byte spans.
use vstd::prelude::*;

pub mod token;
pub mod source;
pub mod error;
pub mod chars;
pub mod escapes;
pub mod keywords;
pub mod operators;
pub mod strings;
pub mod comments;
pub mod numbers;
pub mod scan;

pub use error::LexError;
pub use token::{Span, Token};

use source::{byte_len, Source};
use chars::spec_is_whitespace;
use scan::{error_fits, fails_from, lex_fails_with, lexes_from, lexes_text, scan_step, token_fits, ws_end, Step};

verus! {

/// The shape every successful lexing result has: the last token is the only
/// `Eof`, at the end of the input; every other token covers a nonempty byte
/// range, and the ranges come in source order without overlapping.
pub open spec fn tokens_wf(toks: Seq<(Token, Span)>, n: nat) -> bool {
    &&& toks.len() >= 1
    &&& toks.last().0 is Eof
    &&& toks.last().1 == (Span { start: n as usize, end: n as usize })
    &&& forall|k: int| 0 <= k < toks.len() - 1 ==> !(#[trigger] toks[k].0 is Eof)
    &&& forall|k: int| 0 <= k < toks.len() - 1 ==> (#[trigger] toks[k]).1.start < toks[k].1.end
    &&& forall|k: int| 0 <= k < toks.len() - 1 ==> (#[trigger] toks[k]).1.end <= toks[k + 1].1.start
}

/// A lexer over one source text, held as its characters and their byte
/// offsets.
pub struct Lexer {
    table: Source,
}

impl Lexer {
    /// The character/offset table of the text this lexer reads.
    pub closed spec fn table(&self) -> Source {
        self.table
    }

    /// The text this lexer reads.
    pub closed spec fn source_text(&self) -> Seq<char> {
        self.table.chars@
    }

    #[verifier::type_invariant]
    spec fn table_wf(&self) -> bool {
        self.table.wf()
    }

    pub fn new(source: &str) -> (r: Lexer)
        requires
            byte_len(source@) <= usize::MAX,
        ensures
            r.source_text() == source@,
            r.table().wf(),
            r.table().chars@ == source@,
    {
        Lexer { table: Source::from_str(source) }
    }

    /// Splits the source into tokens: exactly those that `lexes_from`
    /// describes from the start of the text, or else the first error, which
    /// `fails_from` describes. On success the tokens also satisfy
    /// `tokens_wf` over the text's byte length.
    pub fn lex(&self) -> (r: Result<Vec<(Token, Span)>, LexError>)
        ensures
            self.table().wf(),
            self.table().chars@ == self.source_text(),
            r matches Ok(toks) ==> lexes_from(&self.table(), 0, toks@),
            r matches Ok(toks) ==> lexes_text(self.source_text(), toks@),
            r matches Ok(toks) ==> tokens_wf(toks@, byte_len(self.source_text())),
            r matches Err(e) ==> fails_from(&self.table(), 0, e),
            r matches Err(e) ==> lex_fails_with(self.source_text(), e),
    {
        proof {
            use_type_invariant(self);
            assert(self.table.chars@.take(self.table.chars@.len() as int) =~= self.table.chars@);
        }
        let r = lex_source(&self.table);
        proof {
            if r is Ok {
                assert(lexes_from(&self.table, 0, r->Ok_0@));
            } else {
                assert(fails_from(&self.table, 0, r->Err_0));
            }
        }
        r
    }
}

fn push_token(toks: &mut Vec<(Token, Span)>, tok: Token, span: Span)
    ensures
        final(toks)@ == old(toks)@.push((tok, span)),
{
    toks.push((tok, span));
}

/// Scans the token (if any) that starts at index `j`, a character that is
/// not whitespace: exactly what `scan_step` describes.
fn scan_one(src: &Source, j: usize) -> (r: Result<(Option<(Token, Span)>, usize), LexError>)
    requires
        src.wf(),
        j < src.n(),
        !spec_is_whitespace(src.chars@[j as int]),
    ensures
        r matches Ok((Some((tok, span)), next)) ==> (scan_step(src, j as int) matches Step::Emit(shape, sp, nx)
            && token_fits(tok, shape) && sp == span && nx == next),
        r matches Ok((None, next)) ==> scan_step(src, j as int) == Step::Skip(next as int),
        r matches Err(e) ==> (scan_step(src, j as int) matches Step::Fail(shape) && error_fits(e, shape)),
        r matches Ok((_, next)) ==> j < next <= src.n(),
        r matches Ok((Some((tok, span)), next)) ==> {
            &&& !(tok is Eof)
            &&& span.start == src.spec_off(j as int)
            &&& span.start < span.end
            &&& span.end <= src.spec_off(next as int)
        },
{
    let n = src.len();
    let pos = src.off(j);
    let ch = src.chars[j];
    proof {
        src.lemma_off_mono(j as int, j + 1);
    }
    if ch == '#' {
        proof {
            comments::lemma_line_end_bounds(src, j + 1);
            comments::lemma_block_end_bounds(src, j + 2);
            comments::lemma_doc_end_bounds(src, j + 3, j + 3);
        }
        comments::scan_comment(src, j + 1, pos)
    } else if ch == '"' {
        match strings::scan_string(src, j + 1, pos) {
            Ok((tok, span, next)) => {
                proof { src.lemma_off_mono(j as int, next as int); }
                Ok((Some((tok, span)), next))
            },
            Err(e) => Err(e),
        }
    } else if chars::is_digit(ch) {
        proof {
            numbers::lemma_scan_number_bounds(src, j + 1, pos, ch);
        }
        match numbers::scan_number(src, j + 1, pos, ch) {
            Ok((tok, span, next)) => {
                proof { src.lemma_off_mono(j as int, next as int); }
                Ok((Some((tok, span)), next))
            },
            Err(e) => Err(e),
        }
    } else if chars::is_alpha(ch) || ch == '_' {
        let (tok, span, next) = keywords::scan_identifier(src, j);
        proof {
            scan::lemma_ident_end(src, j as int, next as int);
            src.lemma_off_mono(j as int, next as int);
        }
        Ok((Some((tok, span)), next))
    } else if ch == '\'' {
        match chars::scan_char(src, j + 1, pos) {
            Ok((tok, span, next)) => {
                proof { src.lemma_off_mono(j as int, next as int); }
                Ok((Some((tok, span)), next))
            },
            Err(e) => Err(e),
        }
    } else if ch == '=' || ch == '!' || ch == '<' || ch == '>' || ch == '&' || ch == '|'
        || ch == '-' || ch == '+' || ch == '*' || ch == '/' || ch == '%' || ch == '?'
        || ch == '^' || ch == '~' {
        let (tok, span, next) = operators::scan_operator(src, j, ch);
        proof { src.lemma_off_mono(j as int, next as int); }
        Ok((Some((tok, span)), next))
    } else {
        match operators::lookup_punct(ch) {
            Some(tok) => {
                let end = src.off(j + 1);
                Ok((Some((tok, Span { start: pos, end })), j + 1))
            },
            None => Err(LexError::UnrecognizedCharacter { byte: pos, ch }),
        }
    }
}

/// One emitted token in front of what lexing goes on to produce.
proof fn lemma_emit(src: &Source, i: int, j: int, tok: Token, span: Span, next: int, rest: Seq<(Token, Span)>)
    requires
        ws_end(src, i) == j,
        j < src.n(),
        i < next <= src.n(),
        scan_step(src, j) matches Step::Emit(shape, sp, nx) && token_fits(tok, shape) && sp == span && nx == next,
        lexes_from(src, next, rest),
    ensures
        lexes_from(src, i, seq![(tok, span)] + rest),
{
    assert((seq![(tok, span)] + rest).drop_first() =~= rest);
}

/// A scan that yields no token leaves what lexing goes on to produce.
proof fn lemma_skip(src: &Source, i: int, j: int, next: int, rest: Seq<(Token, Span)>)
    requires
        ws_end(src, i) == j,
        j < src.n(),
        i < next <= src.n(),
        scan_step(src, j) == Step::Skip(next),
        lexes_from(src, next, rest),
    ensures
        lexes_from(src, i, rest),
{
}

/// A failure further on is the failure from here.
proof fn lemma_fail_later(src: &Source, i: int, j: int, next: int, e: LexError)
    requires
        ws_end(src, i) == j,
        j < src.n(),
        i < next <= src.n(),
        (scan_step(src, j) matches Step::Emit(_, _, nx) && nx == next) || scan_step(src, j) == Step::Skip(next),
        fails_from(src, next, e),
    ensures
        fails_from(src, i, e),
{
}

/// A scan that fails is the failure from here.
proof fn lemma_fail_here(src: &Source, i: int, j: int, e: LexError)
    requires
        ws_end(src, i) == j,
        j < src.n(),
        scan_step(src, j) matches Step::Fail(shape) && error_fits(e, shape),
    ensures
        fails_from(src, i, e),
{
}

/// Only whitespace is left: lexing ends with `Eof`.
proof fn lemma_end(src: &Source, i: int)
    requires
        ws_end(src, i) >= src.n(),
    ensures
        lexes_from(src, i, seq![(Token::Eof, Span { start: src.spec_off(src.n()) as usize, end: src.spec_off(src.n()) as usize })]),
{
}

/// Lexes a prepared character/offset table: exactly the tokens, or the
/// first error, that `lexes_from` and `fails_from` describe from index 0.
#[verifier::rlimit(40)]
pub fn lex_source(src: &Source) -> (r: Result<Vec<(Token, Span)>, LexError>)
    requires
        src.wf(),
    ensures
        r matches Ok(toks) ==> lexes_from(src, 0, toks@),
        r matches Ok(toks) ==> tokens_wf(toks@, src.spec_off(src.n()) as nat),
        r matches Err(e) ==> fails_from(src, 0, e),
{
    let n = src.len();
    let mut toks: Vec<(Token, Span)> = Vec::new();
    let mut i: usize = 0;
    let mut done = false;
    assert forall|rest: Seq<(Token, Span)>| #[trigger] lexes_from(src, 0, rest)
        implies lexes_from(src, 0, toks@ + rest) by {
        assert(toks@ + rest =~= rest);
    }
    while !done
        invariant
            src.wf(),
            n == src.n(),
            i <= n,
            forall|k: int| 0 <= k < toks@.len() ==> !(#[trigger] toks@[k].0 is Eof) || (done && k == toks@.len() - 1),
            forall|k: int| 0 <= k < toks@.len() ==> (#[trigger] toks@[k]).1.start < toks@[k].1.end || (done && k == toks@.len() - 1),
            forall|k: int| 0 <= k < toks@.len() - 1 ==> (#[trigger] toks@[k]).1.end <= toks@[k + 1].1.start,
            !done && toks@.len() > 0 ==> toks@.last().1.end <= src.spec_off(i as int),
            done ==> tokens_wf(toks@, src.spec_off(n as int) as nat),
            done ==> lexes_from(src, 0, toks@),
            !done ==> forall|rest: Seq<(Token, Span)>| #[trigger] lexes_from(src, i as int, rest)
                ==> lexes_from(src, 0, toks@ + rest),
            !done ==> forall|e: LexError| #[trigger] fails_from(src, i as int, e) ==> fails_from(src, 0, e),
        decreases (if done { 0int } else { 1int }), n - i,
    {
        // Skip whitespace.
        let ghost ib = i;
        while i < n && chars::is_whitespace(src.chars[i])
            invariant
                src.wf(),
                n == src.n(),
                ib <= i <= n,
                ws_end(src, ib as int) == ws_end(src, i as int),
            decreases n - i,
        {
            i = i + 1;
        }
        let ghost j = i;
        assert(ws_end(src, j as int) == j);
        proof {
            src.lemma_off_mono(ib as int, j as int);
        }
        if i >= n {
            let end = src.off(n);
            let ghost before = toks@;
            push_token(&mut toks, Token::Eof, Span { start: end, end });
            proof {
                lemma_end(src, ib as int);
                assert(toks@ =~= before + seq![(Token::Eof, Span { start: end, end })]);
            }
            done = true;
        } else {
            match scan_one(src, i) {
                Ok((Some((tok, span)), next)) => {
                    let ghost before = toks@;
                    proof {
                        assert forall|rest: Seq<(Token, Span)>| #[trigger] lexes_from(src, next as int, rest)
                            implies lexes_from(src, 0, before.push((tok, span)) + rest) by {
                            lemma_emit(src, ib as int, j as int, tok, span, next as int, rest);
                            assert(before + (seq![(tok, span)] + rest) =~= before.push((tok, span)) + rest);
                        }
                        assert forall|e: LexError| #[trigger] fails_from(src, next as int, e)
                            implies fails_from(src, 0, e) by {
                            lemma_fail_later(src, ib as int, j as int, next as int, e);
                        }
                        src.lemma_off_mono(j as int, next as int);
                    }
                    push_token(&mut toks, tok, span);
                    i = next;
                },
                Ok((None, next)) => {
                    proof {
                        assert forall|rest: Seq<(Token, Span)>| #[trigger] lexes_from(src, next as int, rest)
                            implies lexes_from(src, 0, toks@ + rest) by {
                            lemma_skip(src, ib as int, j as int, next as int, rest);
                        }
                        assert forall|e: LexError| #[trigger] fails_from(src, next as int, e)
                            implies fails_from(src, 0, e) by {
                            lemma_fail_later(src, ib as int, j as int, next as int, e);
                        }
                        src.lemma_off_mono(j as int, next as int);
                    }
                    i = next;
                },
                Err(e) => {
                    proof {
                        lemma_fail_here(src, ib as int, j as int, e);
                    }
                    return Err(e);
                },
            }
        }
    }
    Ok(toks)
}

} // verus!

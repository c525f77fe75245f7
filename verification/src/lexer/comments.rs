//! Line, block and doc comments.
use vstd::prelude::*;
use crate::text::string_of_chars;
use super::error::LexError;
use super::source::Source;
use super::token::{Span, Token};

verus! {

/// Index of the `\n` (or end of input) that ends a line comment.
pub open spec fn line_end(src: &Source, k: int) -> int
    decreases src.n() - k,
{
    if k >= src.n() || k < 0 || src.chars@[k] == '\n' {
        k
    } else {
        line_end(src, k + 1)
    }
}

/// Index just past the closing `##` of a block comment whose body starts at `k`.
pub open spec fn block_end(src: &Source, k: int) -> Option<int>
    decreases src.n() - k,
{
    if k >= src.n() || k < 0 {
        None
    } else if src.chars@[k] == '#' && k + 1 < src.n() && src.chars@[k + 1] == '#' {
        Some(k + 2)
    } else {
        block_end(src, k + 1)
    }
}

/// For a doc comment whose remaining body starts at `k`, with the content
/// currently ending at index `ce`: the final content end and the index just
/// past the closing `###`.
pub open spec fn doc_end(src: &Source, k: int, ce: int) -> Option<(int, int)>
    decreases src.n() - k,
{
    if k >= src.n() || k < 0 {
        None
    } else if src.chars@[k] == '#' && k + 1 < src.n() && src.chars@[k + 1] == '#' {
        if k + 2 < src.n() && src.chars@[k + 2] == '#' {
            Some((ce, k + 3))
        } else {
            doc_end(src, k + 2, k + 1)
        }
    } else {
        doc_end(src, k + 1, k + 1)
    }
}

pub proof fn lemma_doc_end_bounds(src: &Source, k: int, ce: int)
    requires
        0 <= ce <= k,
    ensures
        doc_end(src, k, ce) matches Some((ce2, e)) ==> ce <= ce2 && ce2 + 3 <= e <= src.n(),
    decreases src.n() - k,
{
    if k >= src.n() || k < 0 {
    } else if src.chars@[k] == '#' && k + 1 < src.n() && src.chars@[k + 1] == '#' {
        if k + 2 < src.n() && src.chars@[k + 2] == '#' {
        } else {
            lemma_doc_end_bounds(src, k + 2, k + 1);
        }
    } else {
        lemma_doc_end_bounds(src, k + 1, k + 1);
    }
}

pub proof fn lemma_block_end_bounds(src: &Source, k: int)
    requires
        0 <= k,
    ensures
        block_end(src, k) matches Some(e) ==> k + 2 <= e <= src.n(),
    decreases src.n() - k,
{
    if k >= src.n() || k < 0 {
    } else if src.chars@[k] == '#' && k + 1 < src.n() && src.chars@[k + 1] == '#' {
    } else {
        lemma_block_end_bounds(src, k + 1);
    }
}

pub proof fn lemma_line_end_bounds(src: &Source, k: int)
    requires
        0 <= k <= src.n(),
    ensures
        k <= line_end(src, k) <= src.n(),
    decreases src.n() - k,
{
    if k >= src.n() || k < 0 || src.chars@[k] == '\n' {
    } else {
        lemma_line_end_bounds(src, k + 1);
    }
}

/// Scans a comment; `i` is the index just after the first `#`, which sits at
/// byte `start`. Line and block comments produce no token; a doc comment
/// (`### ... ###`) produces a `DocComment` with the text between the markers.
#[verifier::loop_isolation(false)]
pub fn scan_comment(src: &Source, i: usize, start: usize) -> (r: Result<(Option<(Token, Span)>, usize), LexError>)
    requires
        src.wf(),
        1 <= i <= src.n(),
        start == src.spec_off(i - 1),
    ensures
        !src.is_hash(i as int) ==> r == Ok::<(Option<(Token, Span)>, usize), LexError>((None, line_end(src, i as int) as usize)),
        src.is_hash(i as int) && !src.is_hash(i + 1) ==> match block_end(src, i + 1) {
            Some(e) => r == Ok::<(Option<(Token, Span)>, usize), LexError>((None, e as usize)),
            None => r == Err::<(Option<(Token, Span)>, usize), LexError>(LexError::UnterminatedBlockComment { start }),
        },
        src.is_hash(i as int) && src.is_hash(i + 1) ==> match doc_end(src, i + 2, i + 2) {
            Some((ce, e)) => r matches Ok((Some((tok, span)), next)) && {
                &&& next == e
                &&& span == Span { start, end: src.spec_off(ce) as usize }
                &&& tok matches Token::DocComment(t) && t@ == src.chars@.subrange(i + 2, ce)
            },
            None => r == Err::<(Option<(Token, Span)>, usize), LexError>(LexError::UnterminatedDocComment { start }),
        },
        r matches Ok((_, next)) ==> i <= next <= src.n(),
        r matches Ok((Some((_, span)), next)) ==> span.start == start && span.start < span.end
            && span.end <= src.spec_off(next as int),
{
    proof {
        lemma_line_end_bounds(src, i as int);
        lemma_block_end_bounds(src, i + 1);
        lemma_doc_end_bounds(src, i + 2, i + 2);
    }
    let n = src.len();
    if src.is_at(i, '#') {
        if src.is_at(i + 1, '#') {
            // Doc comment.
            let cs = i + 2;
            let mut ce = cs;
            let mut k = cs;
            while k < n
                invariant
                    src.wf(),
                    n == src.n(),
                    cs <= ce <= k <= n,
                    doc_end(src, k as int, ce as int) == doc_end(src, cs as int, cs as int),
                decreases n - k,
            {
                if src.chars[k] == '#' && src.is_at(k + 1, '#') {
                    if src.is_at(k + 2, '#') {
                        let text = string_of_chars(&src.chars, cs, ce);
                        let end = src.off(ce);
                        return Ok((Some((Token::DocComment(text), Span { start, end })), k + 3));
                    }
                    ce = k + 1;
                    k = k + 2;
                } else {
                    ce = k + 1;
                    k = k + 1;
                }
            }
            Err(LexError::UnterminatedDocComment { start })
        } else {
            // Block comment.
            let mut k = i + 1;
            while k < n
                invariant
                    src.wf(),
                    n == src.n(),
                    i + 1 <= k,
                    block_end(src, k as int) == block_end(src, i + 1),
                decreases n - k,
            {
                if src.chars[k] == '#' && src.is_at(k + 1, '#') {
                    return Ok((None, k + 2));
                }
                k = k + 1;
            }
            Err(LexError::UnterminatedBlockComment { start })
        }
    } else {
        // Line comment.
        let mut k = i;
        while k < n && src.chars[k] != '\n'
            invariant
                src.wf(),
                n == src.n(),
                i <= k <= n,
                line_end(src, k as int) == line_end(src, i as int),
            decreases n - k,
        {
            k = k + 1;
        }
        Ok((None, k))
    }
}

} // verus!

//! String literals.
use vstd::prelude::*;
use crate::text::string_of_chars;
use super::error::LexError;
use super::escapes::{decode_escape, escape_value};
use super::source::Source;
use super::token::{Span, Token};

verus! {

/// Index of the closing `"` of a string literal whose body starts at `i`, or
/// the error that ends the scan. Escapes are validated but not decoded.
pub open spec fn string_close(src: &Source, i: int, start: usize) -> Result<int, LexError>
    decreases src.n() - i,
{
    if i >= src.n() || i < 0 {
        Err(LexError::UnterminatedString { start })
    } else if src.chars@[i] == '"' {
        Ok(i)
    } else if src.chars@[i] == '\\' {
        if i + 1 >= src.n() {
            Err(LexError::UnterminatedString { start })
        } else if escape_value(src.chars@[i + 1], '"') is None {
            Err(LexError::InvalidEscape { byte: src.spec_off(i) as usize, ch: src.chars@[i + 1] })
        } else {
            string_close(src, i + 2, start)
        }
    } else {
        string_close(src, i + 1, start)
    }
}

/// Scans a string literal; `i` is the index just after the opening `"`, which
/// sits at byte `start`. The token holds the raw text between the quotes.
pub fn scan_string(src: &Source, i: usize, start: usize) -> (r: Result<(Token, Span, usize), LexError>)
    requires
        src.wf(),
        1 <= i <= src.n(),
    ensures
        match string_close(src, i as int, start) {
            Ok(close) => r matches Ok((tok, span, next)) && {
                &&& next == close + 1
                &&& i <= close < src.n()
                &&& span == Span { start, end: src.spec_off(close + 1) as usize }
                &&& tok matches Token::Str(t) && t@ == src.chars@.subrange(i as int, close)
            },
            Err(e) => r == Err::<(Token, Span, usize), LexError>(e),
        },
{
    let n = src.len();
    let mut k = i;
    while k < n
        invariant
            src.wf(),
            n == src.n(),
            i <= k,
            string_close(src, k as int, start) == string_close(src, i as int, start),
        decreases n - k,
    {
        let c = src.chars[k];
        if c == '"' {
            let raw = string_of_chars(&src.chars, i, k);
            let end = src.off(k + 1);
            return Ok((Token::Str(raw), Span { start, end }, k + 1));
        } else if c == '\\' {
            let r = decode_escape(src, k + 1, '"', k, LexError::UnterminatedString { start });
            match r {
                Ok(_) => {
                    k = k + 2;
                },
                Err(e) => {
                    return Err(e);
                },
            }
        } else {
            k = k + 1;
        }
    }
    Err(LexError::UnterminatedString { start })
}

} // verus!

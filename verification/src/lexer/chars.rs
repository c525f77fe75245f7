//! Character classes used by the lexer, and character literals.
use vstd::prelude::*;
use super::error::LexError;
use super::escapes::{decode_escape, escape_value};
use super::source::Source;
use super::token::{Span, Token};

verus! {

/// Unicode `White_Space` characters (the set `char::is_whitespace` accepts).
pub open spec fn spec_is_whitespace(c: char) -> bool {
    ||| ('\u{9}' <= c && c <= '\u{D}')
    ||| c == ' '
    ||| c == '\u{85}'
    ||| c == '\u{A0}'
    ||| c == '\u{1680}'
    ||| ('\u{2000}' <= c && c <= '\u{200A}')
    ||| c == '\u{2028}'
    ||| c == '\u{2029}'
    ||| c == '\u{202F}'
    ||| c == '\u{205F}'
    ||| c == '\u{3000}'
}

pub fn is_whitespace(c: char) -> (r: bool)
    ensures
        r == spec_is_whitespace(c),
{
    ('\u{9}' <= c && c <= '\u{D}') || c == ' ' || c == '\u{85}' || c == '\u{A0}' || c == '\u{1680}'
        || ('\u{2000}' <= c && c <= '\u{200A}') || c == '\u{2028}' || c == '\u{2029}'
        || c == '\u{202F}' || c == '\u{205F}' || c == '\u{3000}'
}

pub open spec fn spec_is_digit(c: char) -> bool {
    '0' <= c && c <= '9'
}

pub fn is_digit(c: char) -> (r: bool)
    ensures
        r == spec_is_digit(c),
{
    '0' <= c && c <= '9'
}

pub open spec fn spec_is_alpha(c: char) -> bool {
    ('a' <= c && c <= 'z') || ('A' <= c && c <= 'Z')
}

pub fn is_alpha(c: char) -> (r: bool)
    ensures
        r == spec_is_alpha(c),
{
    ('a' <= c && c <= 'z') || ('A' <= c && c <= 'Z')
}

/// Characters that may continue an identifier: ASCII letters, digits and `_`.
pub open spec fn spec_is_ident_char(c: char) -> bool {
    spec_is_alpha(c) || spec_is_digit(c) || c == '_'
}

pub fn is_ident_char(c: char) -> (r: bool)
    ensures
        r == spec_is_ident_char(c),
{
    is_alpha(c) || is_digit(c) || c == '_'
}

/// The outcome of scanning a character literal whose opening `'` sits at
/// index `i - 1` (byte `start`): the token, its span and the index after it.
pub open spec fn spec_scan_char(src: &Source, i: int, start: usize) -> Result<(Token, Span, usize), LexError> {
    let n = src.n();
    if i >= n {
        Err(LexError::UnterminatedChar { start })
    } else if src.chars@[i] == '\'' {
        Err(LexError::EmptyCharLiteral { start })
    } else if src.chars@[i] == '\\' && i + 1 >= n {
        Err(LexError::UnterminatedChar { start })
    } else if src.chars@[i] == '\\' && escape_value(src.chars@[i + 1], '\'') is None {
        Err(LexError::InvalidEscape { byte: src.spec_off(i) as usize, ch: src.chars@[i + 1] })
    } else {
        let (decoded, j) = if src.chars@[i] == '\\' {
            (escape_value(src.chars@[i + 1], '\'')->0, i + 2)
        } else {
            (src.chars@[i], i + 1)
        };
        if j >= n {
            Err(LexError::UnterminatedChar { start })
        } else if src.chars@[j] == '\'' {
            Ok((Token::Char(decoded), Span { start, end: src.spec_off(j + 1) as usize }, (j + 1) as usize))
        } else {
            Err(LexError::MultiCharLiteral { start })
        }
    }
}

/// Scans a character literal; `i` is the index just after the opening `'`,
/// which sits at index `i - 1` and byte `start`.
pub fn scan_char(src: &Source, i: usize, start: usize) -> (r: Result<(Token, Span, usize), LexError>)
    requires
        src.wf(),
        1 <= i <= src.n(),
        start == src.spec_off(i - 1),
    ensures
        r == spec_scan_char(src, i as int, start),
        r matches Ok((_, span, next)) ==> i < next <= src.n()
            && span == (Span { start, end: src.spec_off(next as int) as usize }),
{
    let n = src.len();
    if i >= n {
        return Err(LexError::UnterminatedChar { start });
    }
    let c0 = src.chars[i];
    let mut j = i + 1;
    let decoded: char;
    if c0 == '\'' {
        return Err(LexError::EmptyCharLiteral { start });
    } else if c0 == '\\' {
        let esc = decode_escape(src, j, '\'', i, LexError::UnterminatedChar { start });
        match esc {
            Ok(c) => {
                decoded = c;
                j = j + 1;
            },
            Err(e) => {
                return Err(e);
            },
        }
    } else {
        decoded = c0;
    }
    if j >= n {
        return Err(LexError::UnterminatedChar { start });
    }
    if src.chars[j] == '\'' {
        let end = src.off(j + 1);
        Ok((Token::Char(decoded), Span { start, end }, j + 1))
    } else {
        Err(LexError::MultiCharLiteral { start })
    }
}

} // verus!

//! Escape sequences inside string and character literals.
use vstd::prelude::*;
use super::error::LexError;
use super::source::Source;

verus! {

/// The character an escape `\c` stands for, given the literal's delimiter.
/// `None` means the escape is not valid.
pub open spec fn escape_value(c: char, delimiter: char) -> Option<char> {
    if c == 'n' { Some('\n') }
    else if c == 't' { Some('\t') }
    else if c == 'r' { Some('\r') }
    else if c == '\\' { Some('\\') }
    else if c == '0' { Some('\0') }
    else if c == delimiter { Some(c) }
    else { None }
}

/// Decodes the escape whose letter sits at index `i` (the `\` sits at index
/// `escape_idx`). Fails with `eof_err` when the input ends after the `\`.
pub fn decode_escape(
    src: &Source,
    i: usize,
    delimiter: char,
    escape_idx: usize,
    eof_err: LexError,
) -> (r: Result<char, LexError>)
    requires
        src.wf(),
        i <= src.n(),
        escape_idx < i,
    ensures
        i >= src.n() ==> r == Err::<char, LexError>(eof_err),
        i < src.n() ==> match escape_value(src.chars@[i as int], delimiter) {
            Some(v) => r == Ok::<char, LexError>(v),
            None => r == Err::<char, LexError>(LexError::InvalidEscape {
                byte: src.spec_off(escape_idx as int) as usize,
                ch: src.chars@[i as int],
            }),
        },
{
    if i >= src.len() {
        return Err(eof_err);
    }
    let c = src.chars[i];
    if c == 'n' {
        Ok('\n')
    } else if c == 't' {
        Ok('\t')
    } else if c == 'r' {
        Ok('\r')
    } else if c == '\\' {
        Ok('\\')
    } else if c == '0' {
        Ok('\0')
    } else if c == delimiter {
        Ok(c)
    } else {
        Err(LexError::InvalidEscape { byte: src.off(escape_idx), ch: c })
    }
}

} // verus!

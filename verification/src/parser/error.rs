use vstd::prelude::*;
use crate::lexer::Span;
use crate::text::{dec_text, push_str, push_usize};

verus! {

/// Why a token stream could not be parsed.
#[derive(Debug, Clone, PartialEq)]
pub enum ParseError {
    UnexpectedToken { span: Span, found: String, expected: String, suggestion: Option<String> },
    UnexpectedEof { expected: String, suggestion: Option<String> },
}

/// ` — suggestion` when there is one.
pub open spec fn suggestion_text(s: Option<String>) -> Seq<char> {
    match s {
        Some(t) => " — "@ + t@,
        None => Seq::empty(),
    }
}

/// The diagnostic text of a parse error.
pub open spec fn parse_error_text(e: ParseError) -> Seq<char> {
    match e {
        ParseError::UnexpectedToken { span, found, expected, suggestion } => "unexpected token at byte "@
            + dec_text(span.start as nat) + ": expected "@ + expected@ + ", found "@ + found@ + suggestion_text(suggestion),
        ParseError::UnexpectedEof { expected, suggestion } => "unexpected end of file: expected "@ + expected@
            + suggestion_text(suggestion),
    }
}

impl ParseError {
    /// The human-readable diagnostic for this error.
    pub fn message(&self) -> (r: String)
        ensures
            r@ == parse_error_text(*self),
    {
        let mut s = String::new();
        match self {
            ParseError::UnexpectedToken { span, found, expected, suggestion } => {
                push_str(&mut s, "unexpected token at byte ");
                push_usize(&mut s, span.start);
                push_str(&mut s, ": expected ");
                push_str(&mut s, expected.as_str());
                push_str(&mut s, ", found ");
                push_str(&mut s, found.as_str());
                match suggestion {
                    Some(t) => {
                        push_str(&mut s, " — ");
                        push_str(&mut s, t.as_str());
                    },
                    None => {},
                }
            },
            ParseError::UnexpectedEof { expected, suggestion } => {
                push_str(&mut s, "unexpected end of file: expected ");
                push_str(&mut s, expected.as_str());
                match suggestion {
                    Some(t) => {
                        push_str(&mut s, " — ");
                        push_str(&mut s, t.as_str());
                    },
                    None => {},
                }
            },
        }
        s
    }
}

} // verus!

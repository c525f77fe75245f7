use vstd::prelude::*;
use crate::text::{dec_text, push_char, push_str, push_usize};

verus! {

/// Why the source text could not be split into tokens.
#[derive(Debug, Clone, PartialEq)]
pub enum LexError {
    UnrecognizedCharacter { byte: usize, ch: char },
    UnterminatedString { start: usize },
    IntegerOverflow { start: usize },
    MalformedFloat { start: usize },
    InvalidEscape { byte: usize, ch: char },
    UnterminatedChar { start: usize },
    EmptyCharLiteral { start: usize },
    MultiCharLiteral { start: usize },
    UnterminatedBlockComment { start: usize },
    UnterminatedDocComment { start: usize },
    MissingDigitsAfterBase { start: usize, marker: char },
    MisplacedDigitSeparator { byte: usize },
    /// A numeric literal immediately followed by an identifier character.
    IdentAfterNumericLiteral { start: usize, literal: String, ch: char },
}

/// The diagnostic text of a lexical error.
pub open spec fn lex_error_text(e: LexError) -> Seq<char> {
    match e {
        LexError::UnrecognizedCharacter { byte, ch } => "unrecognized character '"@ + seq![ch] + "' at byte "@ + dec_text(byte as nat) + " — remove it or check for encoding issues"@,
        LexError::UnterminatedString { start } => "unterminated string literal starting at byte "@ + dec_text(start as nat) + " — add a closing '\"'"@,
        LexError::IntegerOverflow { start } => "integer literal at byte "@ + dec_text(start as nat) + " is too large for i64 — use a smaller value (i64 max: 9223372036854775807)"@,
        LexError::MalformedFloat { start } => "malformed float literal at byte "@ + dec_text(start as nat) + " — expected digits on both sides of '.'"@,
        LexError::InvalidEscape { byte, ch } => "unknown escape sequence `\\"@ + seq![ch] + "` at byte "@ + dec_text(byte as nat) + " — valid escapes: `\\\"` `\\\\` `\\n` `\\t` `\\r` `\\0`"@,
        LexError::UnterminatedChar { start } => "unterminated character literal starting at byte "@ + dec_text(start as nat) + " — add a closing `'`"@,
        LexError::EmptyCharLiteral { start } => "empty character literal at byte "@ + dec_text(start as nat) + " — a char literal must contain exactly one character"@,
        LexError::MultiCharLiteral { start } => "character literal at byte "@ + dec_text(start as nat) + " contains more than one character — use a string literal `\"..\"` for multiple characters"@,
        LexError::UnterminatedBlockComment { start } => "unterminated block comment starting at byte "@ + dec_text(start as nat) + " — add a closing `##`"@,
        LexError::UnterminatedDocComment { start } => "unterminated doc comment starting at byte "@ + dec_text(start as nat) + " — add a closing `###`"@,
        LexError::MissingDigitsAfterBase { start, marker } => "missing digits after `0"@ + seq![marker] + "` prefix at byte "@ + dec_text(start as nat) + " — add at least one valid digit (e.g. `0"@ + seq![marker] + "1`)"@,
        LexError::MisplacedDigitSeparator { byte } => "misplaced `_` in numeric literal at byte "@ + dec_text(byte as nat) + " — digit separators are valid only between two digits (e.g. `1_000`), not at the start, end, or doubled"@,
        LexError::IdentAfterNumericLiteral { start, literal, ch } => "numeric literal `"@ + literal@ + "` at byte "@ + dec_text(start as nat) + " is immediately followed by `"@ + seq![ch] + "` — separate the literal from the identifier with whitespace or an operator"@,
    }
}

impl LexError {
    /// The human-readable diagnostic for this error.
    pub fn message(&self) -> (r: String)
        ensures
            r@ == lex_error_text(*self),
    {
        let mut s = String::new();
        match self {
            LexError::UnrecognizedCharacter { byte, ch } => {
                push_str(&mut s, "unrecognized character '");
                push_char(&mut s, *ch);
                push_str(&mut s, "' at byte ");
                push_usize(&mut s, *byte);
                push_str(&mut s, " — remove it or check for encoding issues");
            }
            LexError::UnterminatedString { start } => {
                push_str(&mut s, "unterminated string literal starting at byte ");
                push_usize(&mut s, *start);
                push_str(&mut s, " — add a closing '\"'");
            }
            LexError::IntegerOverflow { start } => {
                push_str(&mut s, "integer literal at byte ");
                push_usize(&mut s, *start);
                push_str(&mut s, " is too large for i64 — use a smaller value (i64 max: 9223372036854775807)");
            }
            LexError::MalformedFloat { start } => {
                push_str(&mut s, "malformed float literal at byte ");
                push_usize(&mut s, *start);
                push_str(&mut s, " — expected digits on both sides of '.'");
            }
            LexError::InvalidEscape { byte, ch } => {
                push_str(&mut s, "unknown escape sequence `\\");
                push_char(&mut s, *ch);
                push_str(&mut s, "` at byte ");
                push_usize(&mut s, *byte);
                push_str(&mut s, " — valid escapes: `\\\"` `\\\\` `\\n` `\\t` `\\r` `\\0`");
            }
            LexError::UnterminatedChar { start } => {
                push_str(&mut s, "unterminated character literal starting at byte ");
                push_usize(&mut s, *start);
                push_str(&mut s, " — add a closing `'`");
            }
            LexError::EmptyCharLiteral { start } => {
                push_str(&mut s, "empty character literal at byte ");
                push_usize(&mut s, *start);
                push_str(&mut s, " — a char literal must contain exactly one character");
            }
            LexError::MultiCharLiteral { start } => {
                push_str(&mut s, "character literal at byte ");
                push_usize(&mut s, *start);
                push_str(&mut s, " contains more than one character — use a string literal `\"..\"` for multiple characters");
            }
            LexError::UnterminatedBlockComment { start } => {
                push_str(&mut s, "unterminated block comment starting at byte ");
                push_usize(&mut s, *start);
                push_str(&mut s, " — add a closing `##`");
            }
            LexError::UnterminatedDocComment { start } => {
                push_str(&mut s, "unterminated doc comment starting at byte ");
                push_usize(&mut s, *start);
                push_str(&mut s, " — add a closing `###`");
            }
            LexError::MissingDigitsAfterBase { start, marker } => {
                push_str(&mut s, "missing digits after `0");
                push_char(&mut s, *marker);
                push_str(&mut s, "` prefix at byte ");
                push_usize(&mut s, *start);
                push_str(&mut s, " — add at least one valid digit (e.g. `0");
                push_char(&mut s, *marker);
                push_str(&mut s, "1`)");
            }
            LexError::MisplacedDigitSeparator { byte } => {
                push_str(&mut s, "misplaced `_` in numeric literal at byte ");
                push_usize(&mut s, *byte);
                push_str(&mut s, " — digit separators are valid only between two digits (e.g. `1_000`), not at the start, end, or doubled");
            }
            LexError::IdentAfterNumericLiteral { start, literal, ch } => {
                push_str(&mut s, "numeric literal `");
                push_str(&mut s, literal.as_str());
                push_str(&mut s, "` at byte ");
                push_usize(&mut s, *start);
                push_str(&mut s, " is immediately followed by `");
                push_char(&mut s, *ch);
                push_str(&mut s, "` — separate the literal from the identifier with whitespace or an operator");
            }
        }
        s
    }
}

} // verus!

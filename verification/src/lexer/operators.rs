//! Operators and punctuation.
use vstd::prelude::*;
use super::source::Source;
use super::token::{Span, Token};

verus! {

/// The single-character punctuation token for `c`, if any.
pub open spec fn punct_token(c: char) -> Option<Token> {
    if c == '(' { Some(Token::LParen) }
    else if c == ')' { Some(Token::RParen) }
    else if c == '{' { Some(Token::LBrace) }
    else if c == '}' { Some(Token::RBrace) }
    else if c == '[' { Some(Token::LBracket) }
    else if c == ']' { Some(Token::RBracket) }
    else if c == ';' { Some(Token::Semicolon) }
    else if c == ':' { Some(Token::Colon) }
    else if c == ',' { Some(Token::Comma) }
    else if c == '.' { Some(Token::Dot) }
    else { None }
}

/// Looks up a punctuation character.
pub fn lookup_punct(c: char) -> (r: Option<Token>)
    ensures
        r == punct_token(c),
{
    if c == '(' { Some(Token::LParen) }
    else if c == ')' { Some(Token::RParen) }
    else if c == '{' { Some(Token::LBrace) }
    else if c == '}' { Some(Token::RBrace) }
    else if c == '[' { Some(Token::LBracket) }
    else if c == ']' { Some(Token::RBracket) }
    else if c == ';' { Some(Token::Semicolon) }
    else if c == ':' { Some(Token::Colon) }
    else if c == ',' { Some(Token::Comma) }
    else if c == '.' { Some(Token::Dot) }
    else { None }
}

/// Characters that begin an operator.
pub open spec fn is_op_start(c: char) -> bool {
    c == '=' || c == '!' || c == '<' || c == '>' || c == '&' || c == '|' || c == '-' || c == '+' || c == '*' || c == '/' || c == '%' || c == '?' || c == '^' || c == '~'
}

/// The operator token that begins with `c` when the following character is
/// `next` (`None` at end of input), and whether it uses that second character.
pub open spec fn operator_token(c: char, next: Option<char>) -> (Token, bool) {
    if c == '=' && next == Some('=') { (Token::EqEq, true) }
    else if c == '=' && next == Some('>') { (Token::FatArrow, true) }
    else if c == '=' { (Token::Equals, false) }
    else if c == '!' && next == Some('=') { (Token::BangEq, true) }
    else if c == '!' { (Token::Bang, false) }
    else if c == '<' && next == Some('<') { (Token::Shl, true) }
    else if c == '<' && next == Some('=') { (Token::LtEq, true) }
    else if c == '<' { (Token::Lt, false) }
    else if c == '>' && next == Some('>') { (Token::Shr, true) }
    else if c == '>' && next == Some('=') { (Token::GtEq, true) }
    else if c == '>' { (Token::Gt, false) }
    else if c == '&' && next == Some('&') { (Token::AmpAmp, true) }
    else if c == '&' { (Token::Amp, false) }
    else if c == '|' && next == Some('|') { (Token::PipePipe, true) }
    else if c == '|' { (Token::Pipe, false) }
    else if c == '-' && next == Some('>') { (Token::Arrow, true) }
    else if c == '-' && next == Some('=') { (Token::MinusEq, true) }
    else if c == '-' { (Token::Minus, false) }
    else if c == '+' && next == Some('=') { (Token::PlusEq, true) }
    else if c == '+' { (Token::Plus, false) }
    else if c == '*' && next == Some('=') { (Token::StarEq, true) }
    else if c == '*' { (Token::Star, false) }
    else if c == '/' && next == Some('=') { (Token::SlashEq, true) }
    else if c == '/' { (Token::Slash, false) }
    else if c == '%' && next == Some('=') { (Token::PercentEq, true) }
    else if c == '%' { (Token::Percent, false) }
    else if c == '?' && next == Some(':') { (Token::QuestionColon, true) }
    else if c == '?' { (Token::Question, false) }
    else if c == '^' { (Token::Caret, false) }
    else if c == '~' { (Token::Tilde, false) }
    else { (Token::Tilde, false) }
}

/// Scans an operator whose first character `c` sits at index `i`.
pub fn scan_operator(src: &Source, i: usize, c: char) -> (r: (Token, Span, usize))
    requires
        src.wf(),
        i < src.n(),
        src.chars@[i as int] == c,
        is_op_start(c),
    ensures
        ({
            let next = if i + 1 < src.n() { Some(src.chars@[i + 1]) } else { None::<char> };
            let (tok, two) = operator_token(c, next);
            &&& r.0 == tok
            &&& r.2 == (if two { i + 2 } else { i + 1 })
            &&& r.1 == (Span { start: src.spec_off(i as int) as usize, end: src.spec_off(r.2 as int) as usize })
        }),
{
    let n = src.len();
    let next: Option<char> = if i + 1 < n { Some(src.chars[i + 1]) } else { None };
    let (tok, two): (Token, bool) =
        if c == '=' && next == Some('=') { (Token::EqEq, true) }
        else if c == '=' && next == Some('>') { (Token::FatArrow, true) }
        else if c == '=' { (Token::Equals, false) }
        else if c == '!' && next == Some('=') { (Token::BangEq, true) }
        else if c == '!' { (Token::Bang, false) }
        else if c == '<' && next == Some('<') { (Token::Shl, true) }
        else if c == '<' && next == Some('=') { (Token::LtEq, true) }
        else if c == '<' { (Token::Lt, false) }
        else if c == '>' && next == Some('>') { (Token::Shr, true) }
        else if c == '>' && next == Some('=') { (Token::GtEq, true) }
        else if c == '>' { (Token::Gt, false) }
        else if c == '&' && next == Some('&') { (Token::AmpAmp, true) }
        else if c == '&' { (Token::Amp, false) }
        else if c == '|' && next == Some('|') { (Token::PipePipe, true) }
        else if c == '|' { (Token::Pipe, false) }
        else if c == '-' && next == Some('>') { (Token::Arrow, true) }
        else if c == '-' && next == Some('=') { (Token::MinusEq, true) }
        else if c == '-' { (Token::Minus, false) }
        else if c == '+' && next == Some('=') { (Token::PlusEq, true) }
        else if c == '+' { (Token::Plus, false) }
        else if c == '*' && next == Some('=') { (Token::StarEq, true) }
        else if c == '*' { (Token::Star, false) }
        else if c == '/' && next == Some('=') { (Token::SlashEq, true) }
        else if c == '/' { (Token::Slash, false) }
        else if c == '%' && next == Some('=') { (Token::PercentEq, true) }
        else if c == '%' { (Token::Percent, false) }
        else if c == '?' && next == Some(':') { (Token::QuestionColon, true) }
        else if c == '?' { (Token::Question, false) }
        else if c == '^' { (Token::Caret, false) }
        else if c == '~' { (Token::Tilde, false) }
        else { (Token::Tilde, false) };
    let j = if two { i + 2 } else { i + 1 };
    (tok, Span { start: src.off(i), end: src.off(j) }, j)
}

} // verus!

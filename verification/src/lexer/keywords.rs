//! Keywords and identifiers.
use vstd::prelude::*;
use crate::text::{string_of_chars, text_is};
use super::chars::{is_ident_char, spec_is_ident_char};
use super::source::Source;
use super::token::{Span, Token};

verus! {

/// The keyword token spelled by `s`, if `s` is a reserved word.
pub open spec fn keyword_token(s: Seq<char>) -> Option<Token> {
    if s == "fn"@ { Some(Token::Fn) }
    else if s == "let"@ { Some(Token::Let) }
    else if s == "mut"@ { Some(Token::Mut) }
    else if s == "const"@ { Some(Token::Const) }
    else if s == "if"@ { Some(Token::If) }
    else if s == "else"@ { Some(Token::Else) }
    else if s == "while"@ { Some(Token::While) }
    else if s == "for"@ { Some(Token::For) }
    else if s == "in"@ { Some(Token::In) }
    else if s == "return"@ { Some(Token::Return) }
    else if s == "break"@ { Some(Token::Break) }
    else if s == "continue"@ { Some(Token::Continue) }
    else if s == "true"@ { Some(Token::True) }
    else if s == "false"@ { Some(Token::False) }
    else if s == "struct"@ { Some(Token::Struct) }
    else if s == "enum"@ { Some(Token::Enum) }
    else if s == "pub"@ { Some(Token::Pub) }
    else if s == "use"@ { Some(Token::Use) }
    else if s == "as"@ { Some(Token::As) }
    else if s == "using"@ { Some(Token::Using) }
    else if s == "static"@ { Some(Token::Static) }
    else if s == "unsafe"@ { Some(Token::Unsafe) }
    else if s == "copy"@ { Some(Token::Copy) }
    else if s == "move"@ { Some(Token::Move) }
    else if s == "self"@ { Some(Token::SelfKw) }
    else if s == "impl"@ { Some(Token::Impl) }
    else if s == "loop"@ { Some(Token::Loop) }
    else if s == "match"@ { Some(Token::Match) }
    else if s == "trait"@ { Some(Token::Trait) }
    else if s == "mod"@ { Some(Token::Mod) }
    else { None }
}

/// Looks up the keyword spelled by `text`.
pub fn lookup(text: &String) -> (r: Option<Token>)
    ensures
        r == keyword_token(text@),
{
    if text_is(text, "fn") { Some(Token::Fn) }
    else if text_is(text, "let") { Some(Token::Let) }
    else if text_is(text, "mut") { Some(Token::Mut) }
    else if text_is(text, "const") { Some(Token::Const) }
    else if text_is(text, "if") { Some(Token::If) }
    else if text_is(text, "else") { Some(Token::Else) }
    else if text_is(text, "while") { Some(Token::While) }
    else if text_is(text, "for") { Some(Token::For) }
    else if text_is(text, "in") { Some(Token::In) }
    else if text_is(text, "return") { Some(Token::Return) }
    else if text_is(text, "break") { Some(Token::Break) }
    else if text_is(text, "continue") { Some(Token::Continue) }
    else if text_is(text, "true") { Some(Token::True) }
    else if text_is(text, "false") { Some(Token::False) }
    else if text_is(text, "struct") { Some(Token::Struct) }
    else if text_is(text, "enum") { Some(Token::Enum) }
    else if text_is(text, "pub") { Some(Token::Pub) }
    else if text_is(text, "use") { Some(Token::Use) }
    else if text_is(text, "as") { Some(Token::As) }
    else if text_is(text, "using") { Some(Token::Using) }
    else if text_is(text, "static") { Some(Token::Static) }
    else if text_is(text, "unsafe") { Some(Token::Unsafe) }
    else if text_is(text, "copy") { Some(Token::Copy) }
    else if text_is(text, "move") { Some(Token::Move) }
    else if text_is(text, "self") { Some(Token::SelfKw) }
    else if text_is(text, "impl") { Some(Token::Impl) }
    else if text_is(text, "loop") { Some(Token::Loop) }
    else if text_is(text, "match") { Some(Token::Match) }
    else if text_is(text, "trait") { Some(Token::Trait) }
    else if text_is(text, "mod") { Some(Token::Mod) }
    else { None }
}

/// The index just past the run of identifier characters starting at `i`.
pub open spec fn is_ident_run_end(src: &Source, i: int, j: int) -> bool {
    &&& i <= j <= src.n()
    &&& forall|k: int| i <= k < j ==> spec_is_ident_char(#[trigger] src.chars@[k])
    &&& (j == src.n() || !spec_is_ident_char(src.chars@[j]))
}

/// Scans an identifier or keyword starting at index `i` (whose character is an
/// identifier character). The token is the keyword spelled by the run, or
/// `Ident` with the run's text.
pub fn scan_identifier(src: &Source, i: usize) -> (r: (Token, Span, usize))
    requires
        src.wf(),
        i < src.n(),
        spec_is_ident_char(src.chars@[i as int]),
    ensures
        is_ident_run_end(src, i as int, r.2 as int),
        i < r.2,
        r.1 == (Span { start: src.spec_off(i as int) as usize, end: src.spec_off(r.2 as int) as usize }),
        match keyword_token(src.chars@.subrange(i as int, r.2 as int)) {
            Some(k) => r.0 == k,
            None => r.0 matches Token::Ident(t) && t@ == src.chars@.subrange(i as int, r.2 as int),
        },
{
    let n = src.len();
    let mut j = i;
    while j < n && is_ident_char(src.chars[j])
        invariant
            src.wf(),
            n == src.n(),
            i <= j <= n,
            forall|k: int| i <= k < j ==> spec_is_ident_char(#[trigger] src.chars@[k]),
        decreases n - j,
    {
        j = j + 1;
    }
    let text = string_of_chars(&src.chars, i, j);
    let span = Span { start: src.off(i), end: src.off(j) };
    match lookup(&text) {
        Some(k) => (k, span, j),
        None => (Token::Ident(text), span, j),
    }
}

} // verus!

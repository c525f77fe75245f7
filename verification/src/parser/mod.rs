//! Recursive-descent parser from tokens to the syntax tree.
use vstd::prelude::*;
use crate::ast::{Ast, Block, Expr, FunctionDef, ImplBlock, Item, Stmt, StructDef, Type};
use crate::ast::stmt::block_wf;
use crate::lexer::{LexError, Lexer, Span, Token};
use crate::lexer::error::lex_error_text;
use crate::lexer::scan::{lex_fails_with, lexes_text};
use crate::lexer::source::byte_len;
use crate::text::owned;
use item::{empty_fn_at, is_empty_fn_of, parser_at, simple_item_width, simple_items_from};
use expr::{literal_expr_at, lone_literal_at};

pub mod error;
pub use error::ParseError;

mod item;
mod types;
mod stmt;
mod expr;
mod control_flow;
mod pattern;

verus! {

/// A cursor over a token stream.
pub struct Parser {
    pub tokens: Vec<(Token, Span)>,
    pub pos: usize,
    /// Set while parsing a condition, iterable or match subject, where
    /// `Name {` opens a block instead of a struct literal.
    pub no_struct_lit: bool,
}

/// The shape of an ill-formed-input report at the current token: end of file
/// gives `UnexpectedEof`, anything else `UnexpectedToken` citing that token.
pub open spec fn is_error_at(p: &Parser, e: ParseError, expected: Seq<char>, suggestion: Option<Seq<char>>) -> bool {
    let (tok, span) = p.tokens@[p.pos as int];
    match e {
        ParseError::UnexpectedEof { expected: ex, suggestion: sg } =>
            tok is Eof && ex@ == expected && opt_view(sg) == suggestion,
        ParseError::UnexpectedToken { span: sp, found, expected: ex, suggestion: sg } =>
            !(tok is Eof) && sp == span && found@ == tok.spec_text() && ex@ == expected
                && opt_view(sg) == suggestion,
    }
}

pub open spec fn opt_view(s: Option<String>) -> Option<Seq<char>> {
    match s {
        Some(t) => Some(t@),
        None => None,
    }
}

impl Parser {
    /// The cursor invariant: a nonempty stream that ends with `Eof`, and a
    /// position inside it.
    pub open spec fn wf(&self) -> bool {
        &&& self.tokens@.len() >= 1
        &&& self.tokens@.last().0 is Eof
        &&& self.pos < self.tokens@.len()
    }

    /// Number of tokens not yet consumed (the current one included).
    pub open spec fn rem(&self) -> int {
        self.tokens@.len() - self.pos
    }

    /// The current token.
    pub open spec fn cur(&self) -> Token {
        self.tokens@[self.pos as int].0
    }

    /// The span of the current token.
    pub open spec fn cur_span(&self) -> Span {
        self.tokens@[self.pos as int].1
    }

    /// The token `k` places after the current one, if any.
    pub open spec fn ahead(&self, k: int) -> Option<Token> {
        if self.pos + k < self.tokens@.len() { Some(self.tokens@[self.pos + k].0) } else { None }
    }

    /// `new` continues `old`: same tokens, still well formed, never moved back,
    /// and the struct-literal mode as it was.
    pub open spec fn follows(new: &Parser, old: &Parser) -> bool {
        &&& new.tokens@ == old.tokens@
        &&& new.wf()
        &&& old.pos <= new.pos
        &&& new.no_struct_lit == old.no_struct_lit
    }

    pub fn new(tokens: Vec<(Token, Span)>) -> (r: Parser)
        ensures
            r.tokens@ == tokens@,
            r.pos == 0,
            !r.no_struct_lit,
    {
        Parser { tokens, pos: 0, no_struct_lit: false }
    }

    // --- Cursor primitives ---

    pub(crate) fn peek(&self) -> (r: &Token)
        requires
            self.wf(),
        ensures
            *r == self.cur(),
    {
        &self.tokens[self.pos].0
    }

    pub(crate) fn peek_span(&self) -> (r: Span)
        requires
            self.wf(),
        ensures
            r == self.cur_span(),
    {
        self.tokens[self.pos].1
    }

    /// The token `k` places ahead, if the stream is long enough.
    pub(crate) fn peek_at(&self, k: usize) -> (r: Option<&Token>)
        requires
            self.wf(),
        ensures
            match r {
                Some(t) => self.ahead(k as int) == Some(*t),
                None => self.ahead(k as int) is None,
            },
    {
        if k < self.tokens.len() - self.pos {
            Some(&self.tokens[self.pos + k].0)
        } else {
            None
        }
    }

    /// Returns the current token and moves past it (staying on the final `Eof`).
    pub(crate) fn advance(&mut self) -> (r: (Token, Span))
        requires
            old(self).wf(),
        ensures
            r == old(self).tokens@[old(self).pos as int],
            final(self).tokens@ == old(self).tokens@,
            final(self).no_struct_lit == old(self).no_struct_lit,
            final(self).wf(),
            !(old(self).cur() is Eof) ==> final(self).pos == old(self).pos + 1,
            old(self).cur() is Eof ==> final(self).pos >= old(self).pos,
    {
        let t = self.tokens[self.pos].0.duplicate();
        let s = self.tokens[self.pos].1;
        let n = self.tokens.len();
        if self.pos < n - 1 {
            self.pos = self.pos + 1;
        }
        (t, s)
    }

    /// Consumes the current token if it is the same variant as `expected`.
    pub(crate) fn eat(&mut self, expected: &Token) -> (r: Result<Span, ParseError>)
        requires
            old(self).wf(),
            !(*expected is Eof),
        ensures
            final(self).tokens@ == old(self).tokens@,
            final(self).no_struct_lit == old(self).no_struct_lit,
            final(self).wf(),
            old(self).cur().spec_kind() == expected.spec_kind() ==> r == Ok::<Span, ParseError>(old(self).cur_span())
                && final(self).pos == old(self).pos + 1,
            old(self).cur().spec_kind() != expected.spec_kind() ==> (final(self).pos == old(self).pos
                && (r matches Err(e) && is_error_at(old(self), e, expected.spec_text(), structural_suggestion(*expected)))),
    {
        if self.peek().same_kind(expected) {
            Ok(self.advance().1)
        } else {
            let suggestion = Self::structural_suggestion(expected);
            let text = expected.text();
            Err(self.error_expected_string(text, suggestion))
        }
    }

    /// Canonical suggestions for structural tokens.
    fn structural_suggestion(tok: &Token) -> (r: Option<&'static str>)
        ensures
            match r {
                Some(s) => structural_suggestion(*tok) == Some(s@),
                None => structural_suggestion(*tok) is None,
            },
    {
        match tok {
            Token::Semicolon => Some("add `;` to end the statement"),
            Token::LBrace => Some("add `{` to open the block body"),
            Token::RBrace => Some("add `}` to close the block"),
            Token::LParen => Some("add `(` to open the parameter list"),
            Token::RParen => Some("add `)` to close the parenthesized expression"),
            Token::FatArrow => Some("add `=>` after the pattern"),
            Token::Arrow => Some("add `->` to specify the return type"),
            Token::Colon => Some("add `:` to separate the name from its type"),
            Token::Equals => Some("add `=` to begin the initializer"),
            Token::In => Some("add `in` between the binding and the iterable"),
            Token::Comma => Some("add `,` to separate items"),
            _ => None,
        }
    }

    /// Consumes an `Ident` token, returning its text and span.
    pub(crate) fn eat_ident(&mut self) -> (r: Result<(String, Span), ParseError>)
        requires
            old(self).wf(),
        ensures
            final(self).tokens@ == old(self).tokens@,
            final(self).no_struct_lit == old(self).no_struct_lit,
            final(self).wf(),
            old(self).cur() is Ident ==> (r matches Ok((name, span)) && old(self).cur() == Token::Ident(name)
                && span == old(self).cur_span() && final(self).pos == old(self).pos + 1),
            !(old(self).cur() is Ident) ==> r is Err && final(self).pos == old(self).pos,
    {
        match self.peek() {
            Token::Ident(_) => {
                let (tok, span) = self.advance();
                match tok {
                    Token::Ident(s) => Ok((s, span)),
                    _ => Err(self.error_expected("an identifier", None)),
                }
            },
            _ => Err(self.error_expected(
                "an identifier",
                Some("identifiers start with a letter or `_`, followed by letters, digits, or `_`"),
            )),
        }
    }

    // --- Error helpers ---

    /// Reports that `expected` was wanted at the current token.
    pub(crate) fn error_expected(&self, expected: &str, suggestion: Option<&str>) -> (r: ParseError)
        requires
            self.wf(),
        ensures
            is_error_at(self, r, expected@, match suggestion { Some(s) => Some(s@), None => None }),
    {
        self.error_expected_string(owned(expected), suggestion)
    }

    fn error_expected_string(&self, expected: String, suggestion: Option<&str>) -> (r: ParseError)
        requires
            self.wf(),
        ensures
            is_error_at(self, r, expected@, match suggestion { Some(s) => Some(s@), None => None }),
    {
        let span = self.peek_span();
        let suggestion = match suggestion {
            Some(s) => Some(owned(s)),
            None => None,
        };
        if self.peek().is_eof() {
            ParseError::UnexpectedEof { expected, suggestion }
        } else {
            let found = self.peek().text();
            ParseError::UnexpectedToken { span, found, expected, suggestion }
        }
    }

    // ─── Public entry point ──────────────────────────────────────────────────

    /// Parses the full token stream into an AST.
    pub fn parse(&mut self) -> (r: Result<Ast, ParseError>)
        requires
            old(self).wf(),
        ensures
            Self::follows(final(self), old(self)),
            r is Ok ==> final(self).cur() is Eof,
            r matches Ok(a) ==> crate::ast::stmt::ast_wf(a),
            old(self).cur() is Eof ==> (r matches Ok(a) && a.items@.len() == 0),
            (empty_fn_at(old(self)) && old(self).ahead(6) == Some(Token::Eof)) ==> (r matches Ok(a)
                && a.items@.len() == 1 && (a.items@[0] matches Item::Function(f) && is_empty_fn_of(old(self), f))),
            simple_items_from(old(self), old(self).pos as int) ==> r is Ok,
    {
        let mut items = Vec::new();
        while !self.peek().is_eof()
            invariant
                Self::follows(self, old(self)),
                forall|i: int| 0 <= i < items@.len() ==> crate::ast::stmt::item_tree_wf(#[trigger] items@[i]),
                old(self).cur() is Eof ==> (items@.len() == 0 && self.pos == old(self).pos),
                (empty_fn_at(old(self)) && old(self).ahead(6) == Some(Token::Eof)) ==> ((self.pos == old(self).pos
                    && items@.len() == 0) || (self.pos == old(self).pos + 6 && items@.len() == 1
                    && (items@[0] matches Item::Function(f) && is_empty_fn_of(old(self), f)))),
                simple_items_from(old(self), old(self).pos as int) ==> simple_items_from(old(self), self.pos as int),
            decreases self.rem(),
        {
            proof {
                if simple_items_from(old(self), self.pos as int) {
                    assert(simple_item_width(&parser_at(old(self), self.pos as int)) == simple_item_width(self));
                }
            }
            let it = self.parse_item()?;
            items.push(it);
        }
        Ok(Ast { items })
    }
}

/// Canonical suggestion text for structural tokens.
pub open spec fn structural_suggestion(tok: Token) -> Option<Seq<char>> {
    match tok {
        Token::Semicolon => Some("add `;` to end the statement"@),
        Token::LBrace => Some("add `{` to open the block body"@),
        Token::RBrace => Some("add `}` to close the block"@),
        Token::LParen => Some("add `(` to open the parameter list"@),
        Token::RParen => Some("add `)` to close the parenthesized expression"@),
        Token::FatArrow => Some("add `=>` after the pattern"@),
        Token::Arrow => Some("add `->` to specify the return type"@),
        Token::Colon => Some("add `:` to separate the name from its type"@),
        Token::Equals => Some("add `=` to begin the initializer"@),
        Token::In => Some("add `in` between the binding and the iterable"@),
        Token::Comma => Some("add `,` to separate items"@),
        _ => None,
    }
}


/// `e` reports that lexing `text` failed: an unexpected end of a lexically
/// valid source, with the lexer's message as its suggestion.
pub open spec fn lex_error_reported(text: Seq<char>, e: ParseError) -> bool {
    exists|le: LexError| #[trigger] lex_fails_with(text, le) && (e matches ParseError::UnexpectedEof {
        expected, suggestion: Some(m) } && expected@ == "a lexically valid source"@ && m@ == lex_error_text(le))
}

/// What a single-construct entry point reports as an error: a lexing
/// failure as `lex_error_reported` says, or else a parse error on the text's
/// tokens.
pub open spec fn entry_error(text: Seq<char>, e: ParseError) -> bool {
    lex_error_reported(text, e) || exists|toks: Seq<(Token, Span)>| #[trigger] lexes_text(text, toks)
}

/// What a type's first token says of the type: `&` begins a reference,
/// `Self` is the enclosing impl's type, and another name begins a named type.
pub open spec fn type_head_fits(first: Token, t: Type) -> bool {
    &&& first is Amp ==> t is Ref
    &&& first matches Token::Ident(n) ==> if n@ == "Self"@ {
        t is SelfTy
    } else {
        t matches Type::Named { name, .. } && name@ == n@
    }
}

/// What a statement's first token says of the statement.
pub open spec fn stmt_head_fits(first: Token, s: Stmt) -> bool {
    &&& first is Let ==> s is Let
    &&& first is Const ==> s is Const
    &&& first is Return ==> s is Return
    &&& first is Break ==> s is Break
    &&& first is Continue ==> s is Continue
    &&& !(first is Let || first is Const || first is Return || first is Break || first is Continue)
        ==> (s is Assign || s is Expr)
}

/// Token `i` of `toks` is `t`.
pub open spec fn tok_at(toks: Seq<(Token, Span)>, i: int, t: Token) -> bool {
    0 <= i < toks.len() && toks[i].0 == t
}

/// The error is the report of a lexing failure of `src`.
pub open spec fn lex_failed(src: Seq<char>, r_err: Option<ParseError>) -> bool {
    r_err matches Some(e) && lex_error_reported(src, e)
}

/// Splits `src` into tokens for one of the single-construct entry points
/// below; a lexical error is reported as a parse error whose suggestion is
/// the lexer's own message.
fn lex_for_parse(src: &str) -> (r: Result<Parser, ParseError>)
    requires
        byte_len(src@) <= usize::MAX,
    ensures
        r matches Ok(p) ==> p.wf() && p.pos == 0 && !p.no_struct_lit && lexes_text(src@, p.tokens@),
        r matches Err(e) ==> lex_error_reported(src@, e),
{
    let lexer = Lexer::new(src);
    match lexer.lex() {
        Ok(tokens) => Ok(Parser::new(tokens)),
        Err(e) => {
            let m = e.message();
            let r = ParseError::UnexpectedEof { expected: owned("a lexically valid source"), suggestion: Some(m) };
            proof {
                assert(lex_fails_with(src@, e));
            }
            Err(r)
        },
    }
}

/// Parses `src` as one expression.
pub fn parse_expr(src: &str) -> (r: Result<Expr, ParseError>)
    requires
        byte_len(src@) <= usize::MAX,
    ensures
        r matches Ok(e) ==> crate::ast::stmt::expr_tree_wf(e),
        r matches Ok(_) ==> exists|toks: Seq<(Token, Span)>| #[trigger] lexes_text(src@, toks),
        r matches Err(e) ==> entry_error(src@, e),
        !lex_failed(src@, match r { Err(e) => Some(e), Ok(_) => None }) ==> exists|toks: Seq<(Token, Span)>|
            #[trigger] lexes_text(src@, toks) && (lone_literal_at(toks, 0) ==> r == Ok::<Expr, ParseError>(literal_expr_at(toks, 0))),
{
    let mut p = match lex_for_parse(src) {
        Ok(p) => p,
        Err(e) => return Err(e),
    };
    let ghost toks = p.tokens@;
    let r = p.parse_expr();
    assert(lexes_text(src@, toks));
    r
}

/// Parses `src` as one statement.
pub fn parse_stmt(src: &str) -> (r: Result<Stmt, ParseError>)
    requires
        byte_len(src@) <= usize::MAX,
    ensures
        r matches Ok(s) ==> crate::ast::stmt::stmt_tree_wf(s),
        r matches Ok(s) ==> exists|toks: Seq<(Token, Span)>| #[trigger] lexes_text(src@, toks)
            && stmt_head_fits(toks[0].0, s),
        r matches Err(e) ==> entry_error(src@, e),
        !lex_failed(src@, match r { Err(e) => Some(e), Ok(_) => None }) ==> exists|toks: Seq<(Token, Span)>|
            #[trigger] lexes_text(src@, toks) && ((lone_literal_at(toks, 0) && tok_at(toks, 1, Token::Semicolon)) ==>
                (r matches Ok(Stmt::Expr { expr, has_semicolon: true, .. }) && *expr == literal_expr_at(toks, 0))),
{
    let mut p = match lex_for_parse(src) {
        Ok(p) => p,
        Err(e) => return Err(e),
    };
    let ghost toks = p.tokens@;
    let r = p.parse_stmt();
    assert(lexes_text(src@, toks));
    r
}

/// Parses `src` as one braced block; every expression statement kept in
/// the result ends with `;`.
pub fn parse_block(src: &str) -> (r: Result<Block, ParseError>)
    requires
        byte_len(src@) <= usize::MAX,
    ensures
        r matches Ok(b) ==> block_wf(&b) && crate::ast::stmt::block_tree_wf(b),
        r matches Ok(b) ==> exists|toks: Seq<(Token, Span)>| #[trigger] lexes_text(src@, toks)
            && toks[0].0 is LBrace && b.span.start == toks[0].1.start,
        r matches Err(e) ==> entry_error(src@, e),
        !lex_failed(src@, match r { Err(e) => Some(e), Ok(_) => None }) ==> exists|toks: Seq<(Token, Span)>|
            #[trigger] lexes_text(src@, toks) && ((tok_at(toks, 0, Token::LBrace) && tok_at(toks, 1, Token::RBrace)) ==>
                (r matches Ok(b) && b.stmts@.len() == 0 && b.tail is None)),
{
    let mut p = match lex_for_parse(src) {
        Ok(p) => p,
        Err(e) => return Err(e),
    };
    let ghost toks = p.tokens@;
    let r = p.parse_block();
    assert(lexes_text(src@, toks));
    r
}

/// Parses `src` as one function declaration.
pub fn parse_fn(src: &str) -> (r: Result<FunctionDef, ParseError>)
    requires
        byte_len(src@) <= usize::MAX,
    ensures
        r matches Ok(f) ==> block_wf(&f.body) && f.span.end == f.body.span.end,
        r matches Ok(f) ==> crate::ast::stmt::block_tree_wf(f.body),
        r matches Ok(f) ==> exists|toks: Seq<(Token, Span)>| #[trigger] lexes_text(src@, toks)
            && toks[0].0 is Fn && f.span.start == toks[0].1.start,
        r matches Err(e) ==> entry_error(src@, e),
        !lex_failed(src@, match r { Err(e) => Some(e), Ok(_) => None }) ==> exists|toks: Seq<(Token, Span)>|
            #[trigger] lexes_text(src@, toks) && ((tok_at(toks, 0, Token::Fn) && toks.len() > 1 && toks[1].0 is Ident
                && tok_at(toks, 2, Token::LParen) && tok_at(toks, 3, Token::RParen) && tok_at(toks, 4, Token::LBrace)
                && tok_at(toks, 5, Token::RBrace)) ==> (r matches Ok(f) && Token::Ident(f.name) == toks[1].0
                    && f.params@.len() == 0 && f.return_ty is None && f.body.stmts@.len() == 0 && f.body.tail is None)),
{
    let mut p = match lex_for_parse(src) {
        Ok(p) => p,
        Err(e) => return Err(e),
    };
    let ghost toks = p.tokens@;
    let r = p.parse_function();
    assert(lexes_text(src@, toks));
    r
}

/// Parses `src` as one type.
pub fn parse_type_str(src: &str) -> (r: Result<Type, ParseError>)
    requires
        byte_len(src@) <= usize::MAX,
    ensures
        r matches Ok(t) ==> exists|toks: Seq<(Token, Span)>| #[trigger] lexes_text(src@, toks)
            && type_head_fits(toks[0].0, t),
        r matches Err(e) ==> entry_error(src@, e),
        !lex_failed(src@, match r { Err(e) => Some(e), Ok(_) => None }) ==> exists|toks: Seq<(Token, Span)>|
            #[trigger] lexes_text(src@, toks) && (toks.len() > 1 ==> (toks[0].0 matches Token::Ident(n) ==>
                ((n@ != "Self"@ && toks[1].0 != Token::Lt) ==> (r matches Ok(Type::Named { name, args, .. }) && name == n
                    && args@.len() == 0)))),
{
    let mut p = match lex_for_parse(src) {
        Ok(p) => p,
        Err(e) => return Err(e),
    };
    let ghost toks = p.tokens@;
    let r = p.parse_type();
    assert(lexes_text(src@, toks));
    r
}

/// Parses `src` as one `impl` block.
pub fn parse_impl(src: &str) -> (r: Result<ImplBlock, ParseError>)
    requires
        byte_len(src@) <= usize::MAX,
    ensures
        r matches Ok(b) ==> forall|i: int| 0 <= i < b.methods@.len() ==> crate::ast::stmt::block_tree_wf((#[trigger] b.methods@[i]).body),
        r matches Ok(b) ==> exists|toks: Seq<(Token, Span)>| #[trigger] lexes_text(src@, toks)
            && toks[0].0 is Impl && b.span.start == toks[0].1.start,
        r matches Err(e) ==> entry_error(src@, e),
        !lex_failed(src@, match r { Err(e) => Some(e), Ok(_) => None }) ==> exists|toks: Seq<(Token, Span)>|
            #[trigger] lexes_text(src@, toks) && ((tok_at(toks, 0, Token::Impl) && toks.len() > 1 && toks[1].0 is Ident
                && tok_at(toks, 2, Token::LBrace) && tok_at(toks, 3, Token::RBrace)) ==> (r matches Ok(b)
                    && Token::Ident(b.ty_name) == toks[1].0 && b.methods@.len() == 0)),
{
    let mut p = match lex_for_parse(src) {
        Ok(p) => p,
        Err(e) => return Err(e),
    };
    let ghost toks = p.tokens@;
    let r = p.parse_impl_block();
    assert(lexes_text(src@, toks));
    r
}

/// Parses the whole of `src` and returns its first item, which must be a
/// struct declaration: `Ok(None)` when the first item is something else or
/// there is none.
pub fn parse_struct(src: &str) -> (r: Result<Option<StructDef>, ParseError>)
    requires
        byte_len(src@) <= usize::MAX,
    ensures
        r is Ok ==> exists|toks: Seq<(Token, Span)>| #[trigger] lexes_text(src@, toks),
        r matches Err(e) ==> entry_error(src@, e),
        !lex_failed(src@, match r { Err(e) => Some(e), Ok(_) => None }) ==> exists|toks: Seq<(Token, Span)>|
            #[trigger] lexes_text(src@, toks) && ((tok_at(toks, 0, Token::Struct) && toks.len() > 1 && toks[1].0 is Ident
                && tok_at(toks, 2, Token::LBrace) && tok_at(toks, 3, Token::RBrace) && tok_at(toks, 4, Token::Eof)) ==> r is Ok),
{
    let mut p = match lex_for_parse(src) {
        Ok(p) => p,
        Err(e) => return Err(e),
    };
    let ghost toks = p.tokens@;
    assert(lexes_text(src@, toks));
    proof {
        if tok_at(toks, 0, Token::Struct) && toks.len() > 1 && toks[1].0 is Ident
            && tok_at(toks, 2, Token::LBrace) && tok_at(toks, 3, Token::RBrace) && tok_at(toks, 4, Token::Eof) {
            assert(simple_item_width(&parser_at(&p, 0)) == 4);
            assert(simple_items_from(&p, 4));
            assert(simple_items_from(&p, 0));
        }
    }
    let ast = match p.parse() {
        Ok(a) => a,
        Err(e) => return Err(e),
    };
    let mut items = ast.items;
    if items.len() == 0 {
        return Ok(None);
    }
    match items.remove(0) {
        Item::Struct(def) => Ok(Some(def)),
        _ => Ok(None),
    }
}

} // verus!

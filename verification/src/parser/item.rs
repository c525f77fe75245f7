use vstd::prelude::*;
use crate::ast::{CopyMove, EnumDef, EnumVariant, FunctionDef, ImplBlock, Item, Param, StructDef, StructField, Type};
use crate::lexer::{Span, Token};
use crate::text::{owned, push_str};
use super::{is_error_at, ParseError, Parser};
use crate::ast::stmt::{block_tree_wf, item_tree_wf};

verus! {

/// The text of a rejected `&self`-style receiver, as reported.
pub open spec fn receiver_form_text(has_mut: bool, has_self: bool) -> Seq<char> {
    if has_mut {
        if has_self { "`&mut self`"@ } else { "`&mut`"@ }
    } else {
        if has_self { "`&self`"@ } else { "`&`"@ }
    }
}

/// `< Name >` at the cursor: a single generic parameter.
pub open spec fn one_generic_param(p: &Parser) -> bool {
    p.cur() is Lt && (p.ahead(1) matches Some(Token::Ident(_))) && p.ahead(2) == Some(Token::Gt)
}

/// `Name { }` right after the cursor: a declaration with an empty body
/// (the cursor is on its keyword).
pub open spec fn empty_decl_at(p: &Parser) -> bool {
    (p.ahead(1) matches Some(Token::Ident(_))) && p.ahead(2) == Some(Token::LBrace) && p.ahead(3) == Some(Token::RBrace)
}

/// `fn name ( ) { }` at the cursor: a function with no parameters, no
/// return type and an empty body.
pub open spec fn empty_fn_at(p: &Parser) -> bool {
    &&& p.cur() is Fn
    &&& p.ahead(1) matches Some(Token::Ident(_))
    &&& p.ahead(2) == Some(Token::LParen)
    &&& p.ahead(3) == Some(Token::RParen)
    &&& p.ahead(4) == Some(Token::LBrace)
    &&& p.ahead(5) == Some(Token::RBrace)
}

/// What parsing `fn name ( ) { }` yields: that function, named by its
/// identifier, with nothing in it.
pub open spec fn is_empty_fn_of(p: &Parser, f: FunctionDef) -> bool {
    &&& Token::Ident(f.name) == p.ahead(1)->0
    &&& f.generic_params@.len() == 0
    &&& f.params@.len() == 0
    &&& f.return_ty is None
    &&& f.body.stmts@.len() == 0
    &&& f.body.tail is None
}

/// The parser `p` moved to token index `i`.
pub open spec fn parser_at(p: &Parser, i: int) -> Parser {
    Parser { tokens: p.tokens, pos: i as usize, no_struct_lit: p.no_struct_lit }
}

/// The number of tokens of an item with nothing in it at the cursor:
/// `fn name ( ) { }`, or `struct`, `enum` or `impl` with a name and `{ }`;
/// zero for anything else.
pub open spec fn simple_item_width(p: &Parser) -> int {
    if empty_fn_at(p) {
        6
    } else if (p.cur() is Struct || p.cur() is Enum || p.cur() is Impl) && empty_decl_at(p) {
        4
    } else {
        0
    }
}

/// From token index `i` on, the tokens are items with nothing in them,
/// then the end of input.
pub open spec fn simple_items_from(p: &Parser, i: int) -> bool
    decreases p.tokens@.len() - i,
{
    if i < 0 || i >= p.tokens@.len() {
        false
    } else if p.tokens@[i].0 is Eof {
        true
    } else {
        let w = simple_item_width(&parser_at(p, i));
        w > 0 && i + w < p.tokens@.len() && simple_items_from(p, i + w)
    }
}

impl Parser {
    /// A top-level item, chosen by its first token (after an optional
    /// `copy`/`move` modifier for type declarations).
    pub(crate) fn parse_item(&mut self) -> (r: Result<Item, ParseError>)
        requires
            old(self).wf(),
        ensures
            Self::follows(final(self), old(self)),
            r is Ok ==> old(self).pos < final(self).pos,
            old(self).cur() is Fn ==> (r matches Ok(it) ==> it is Function),
            old(self).cur() is Impl ==> (r matches Ok(it) ==> it is Impl),
            old(self).cur() is Struct ==> (r matches Ok(it) ==> it is Struct),
            old(self).cur() is Enum ==> (r matches Ok(it) ==> it is Enum),
            !(old(self).cur() is Fn || old(self).cur() is Impl || old(self).cur() is Struct
                || old(self).cur() is Enum || old(self).cur() is Copy || old(self).cur() is Move)
                ==> (r matches Err(e) && is_error_at(old(self), e,
                    "`fn`, `impl`, `struct`, or `enum`"@,
                    Some("only `fn` declarations, `impl` blocks, and `struct`/`enum` declarations are allowed at the top level"@))),
            r matches Ok(it) ==> item_tree_wf(it),
            empty_fn_at(old(self)) ==> (r matches Ok(Item::Function(f)) && is_empty_fn_of(old(self), f)
                && final(self).pos == old(self).pos + 6),
            simple_item_width(old(self)) > 0 ==> (r is Ok && final(self).pos == old(self).pos + simple_item_width(old(self))),
        decreases old(self).rem(), 2nat,
    {
        match self.peek() {
            Token::Fn => {
                let f = self.parse_function()?;
                Ok(Item::Function(f))
            },
            Token::Impl => {
                let b = self.parse_impl_block()?;
                Ok(Item::Impl(b))
            },
            Token::Struct | Token::Enum | Token::Copy | Token::Move => self.parse_type_decl(),
            _ => Err(self.error_expected(
                "`fn`, `impl`, `struct`, or `enum`",
                Some("only `fn` declarations, `impl` blocks, and `struct`/`enum` declarations are allowed at the top level"),
            )),
        }
    }

    /// `[copy|move] struct ...` or `[copy|move] enum ...`.
    fn parse_type_decl(&mut self) -> (r: Result<Item, ParseError>)
        requires
            old(self).wf(),
        ensures
            Self::follows(final(self), old(self)),
            r is Ok ==> old(self).pos < final(self).pos,
            old(self).cur() is Struct ==> (r matches Ok(it) ==> it is Struct),
            old(self).cur() is Enum ==> (r matches Ok(it) ==> it is Enum),
            r matches Ok(it) ==> item_tree_wf(it),
            (old(self).cur() is Struct && empty_decl_at(old(self))) ==> (r matches Ok(Item::Struct(d))
                && Token::Ident(d.name) == old(self).ahead(1)->0 && d.generic_params@.len() == 0
                && d.fields@.len() == 0 && d.copy_move is None && final(self).pos == old(self).pos + 4),
            (old(self).cur() is Enum && empty_decl_at(old(self))) ==> (r matches Ok(Item::Enum(d))
                && Token::Ident(d.name) == old(self).ahead(1)->0 && d.generic_params@.len() == 0
                && d.variants@.len() == 0 && d.copy_move is None && final(self).pos == old(self).pos + 4),
        decreases old(self).rem(), 1nat,
    {
        let start = self.peek_span().start;
        let copy_move = match self.peek() {
            Token::Copy => {
                self.advance();
                Some(CopyMove::Copy)
            },
            Token::Move => {
                self.advance();
                Some(CopyMove::Move)
            },
            _ => None,
        };
        match self.peek() {
            Token::Struct => {
                let d = self.parse_struct_def(start, copy_move)?;
                Ok(Item::Struct(d))
            },
            Token::Enum => {
                let d = self.parse_enum_def(start, copy_move)?;
                Ok(Item::Enum(d))
            },
            _ => Err(self.error_expected(
                "`struct` or `enum`",
                Some("`copy` and `move` modify a `struct` or `enum` declaration"),
            )),
        }
    }

    /// `struct Name[<params>] { field: Type, ... }` — the trailing comma is optional.
    fn parse_struct_def(&mut self, start: usize, copy_move: Option<CopyMove>) -> (r: Result<StructDef, ParseError>)
        requires
            old(self).wf(),
        ensures
            Self::follows(final(self), old(self)),
            r is Ok ==> old(self).pos < final(self).pos,
            r matches Ok(d) ==> d.copy_move == copy_move && d.span.start == start,
            !(old(self).cur() is Struct) ==> r is Err,
            (old(self).cur() is Struct && empty_decl_at(old(self))) ==> (r matches Ok(d)
                && Token::Ident(d.name) == old(self).ahead(1)->0 && d.generic_params@.len() == 0
                && d.fields@.len() == 0 && d.span == (Span { start, end: old(self).tokens@[old(self).pos + 3].1.end })
                && final(self).pos == old(self).pos + 4),
    {
        self.eat(&Token::Struct)?;
        let (name, name_span) = self.eat_ident()?;
        let generic_params = self.parse_generic_params_opt()?;
        self.eat(&Token::LBrace)?;
        let mut fields: Vec<StructField> = Vec::new();
        while !matches!(self.peek(), Token::RBrace)
            invariant
                Self::follows(self, old(self)),
                old(self).pos < self.pos,
                (old(self).cur() is Struct && empty_decl_at(old(self))) ==> (self.pos == old(self).pos + 3
                    && fields@.len() == 0 && Token::Ident(name) == old(self).ahead(1)->0 && generic_params@.len() == 0),
            decreases self.rem(),
        {
            let (fname, fspan) = self.eat_ident()?;
            self.eat(&Token::Colon)?;
            let ty = self.parse_type()?;
            let end = ty.span().end;
            fields.push(StructField { name: fname, name_span: fspan, ty, span: Span { start: fspan.start, end } });
            match self.peek() {
                Token::Comma => {
                    self.advance();
                },
                Token::RBrace => {},
                _ => {
                    return Err(self.error_expected(
                        "`,` or `}`",
                        Some("add `,` to separate fields or `}` to close the struct"),
                    ));
                },
            }
        }
        let end = self.eat(&Token::RBrace)?.end;
        Ok(StructDef { name, name_span, generic_params, fields, copy_move, span: Span { start, end } })
    }

    /// `enum Name[<params>] { Variant, Variant(Type, ...), ... }`.
    fn parse_enum_def(&mut self, start: usize, copy_move: Option<CopyMove>) -> (r: Result<EnumDef, ParseError>)
        requires
            old(self).wf(),
        ensures
            Self::follows(final(self), old(self)),
            r is Ok ==> old(self).pos < final(self).pos,
            r matches Ok(d) ==> d.copy_move == copy_move && d.span.start == start,
            !(old(self).cur() is Enum) ==> r is Err,
            (old(self).cur() is Enum && empty_decl_at(old(self))) ==> (r matches Ok(d)
                && Token::Ident(d.name) == old(self).ahead(1)->0 && d.generic_params@.len() == 0
                && d.variants@.len() == 0 && d.span == (Span { start, end: old(self).tokens@[old(self).pos + 3].1.end })
                && final(self).pos == old(self).pos + 4),
    {
        self.eat(&Token::Enum)?;
        let (name, name_span) = self.eat_ident()?;
        let generic_params = self.parse_generic_params_opt()?;
        self.eat(&Token::LBrace)?;
        let mut variants: Vec<EnumVariant> = Vec::new();
        while !matches!(self.peek(), Token::RBrace)
            invariant
                Self::follows(self, old(self)),
                old(self).pos < self.pos,
                (old(self).cur() is Enum && empty_decl_at(old(self))) ==> (self.pos == old(self).pos + 3
                    && variants@.len() == 0 && Token::Ident(name) == old(self).ahead(1)->0 && generic_params@.len() == 0),
            decreases self.rem(),
        {
            let ghost before = self.pos;
            let (vname, vspan) = self.eat_ident()?;
            let mut tys: Vec<Type> = Vec::new();
            let mut end = vspan.end;
            if matches!(self.peek(), Token::LParen) {
                self.advance();
                while !matches!(self.peek(), Token::RParen)
                    invariant
                        Self::follows(self, old(self)),
                        old(self).pos < self.pos,
                        before < self.pos,
                        !(old(self).cur() is Enum && empty_decl_at(old(self))),
                    decreases self.rem(),
                {
                    let ty = self.parse_type()?;
                    tys.push(ty);
                    match self.peek() {
                        Token::Comma => {
                            self.advance();
                        },
                        Token::RParen => {},
                        _ => {
                            return Err(self.error_expected(
                                "`,` or `)`",
                                Some("add `,` to separate payload types or `)` to close the variant"),
                            ));
                        },
                    }
                }
                end = self.eat(&Token::RParen)?.end;
            }
            variants.push(EnumVariant { name: vname, name_span: vspan, fields: tys, span: Span { start: vspan.start, end } });
            match self.peek() {
                Token::Comma => {
                    self.advance();
                },
                Token::RBrace => {},
                _ => {
                    return Err(self.error_expected(
                        "`,` or `}`",
                        Some("add `,` to separate variants or `}` to close the enum"),
                    ));
                },
            }
        }
        let end = self.eat(&Token::RBrace)?.end;
        Ok(EnumDef { name, name_span, generic_params, variants, copy_move, span: Span { start, end } })
    }

    /// `impl TypeName { [fn ...] }`
    pub(crate) fn parse_impl_block(&mut self) -> (r: Result<ImplBlock, ParseError>)
        requires
            old(self).wf(),
        ensures
            Self::follows(final(self), old(self)),
            r is Ok ==> old(self).pos < final(self).pos,
            r matches Ok(b) ==> old(self).cur() is Impl && b.span.start == old(self).cur_span().start,
            r matches Ok(b) ==> forall|i: int| 0 <= i < b.methods@.len() ==> block_tree_wf((#[trigger] b.methods@[i]).body),
            (old(self).cur() is Impl && empty_decl_at(old(self))) ==> (r matches Ok(b)
                && Token::Ident(b.ty_name) == old(self).ahead(1)->0 && b.methods@.len() == 0
                && final(self).pos == old(self).pos + 4),
        decreases old(self).rem(), 1nat,
    {
        let start = self.peek_span().start;
        self.eat(&Token::Impl)?;
        let (ty_name, ty_name_span) = self.eat_ident()?;
        self.eat(&Token::LBrace)?;

        let mut methods: Vec<FunctionDef> = Vec::new();
        loop
            invariant_except_break
                (old(self).cur() is Impl && empty_decl_at(old(self))) ==> (self.pos == old(self).pos + 3
                    && methods@.len() == 0),
            invariant
                Self::follows(self, old(self)),
                old(self).pos < self.pos,
                forall|i: int| 0 <= i < methods@.len() ==> block_tree_wf((#[trigger] methods@[i]).body),
                (old(self).cur() is Impl && empty_decl_at(old(self))) ==> Token::Ident(ty_name) == old(self).ahead(1)->0,
            ensures
                Self::follows(self, old(self)),
                old(self).pos < self.pos,
                forall|i: int| 0 <= i < methods@.len() ==> block_tree_wf((#[trigger] methods@[i]).body),
                (old(self).cur() is Impl && empty_decl_at(old(self))) ==> (self.pos == old(self).pos + 3
                    && methods@.len() == 0 && Token::Ident(ty_name) == old(self).ahead(1)->0),
                self.cur() is RBrace,
            decreases self.rem(),
        {
            match self.peek() {
                Token::RBrace => {
                    break;
                },
                Token::Fn => {
                    let f = self.parse_function()?;
                    methods.push(f);
                },
                Token::Eof => {
                    return Err(self.error_expected("`}` or `fn`", Some("add `}` to close the impl block")));
                },
                _ => {
                    return Err(self.error_expected(
                        "`fn`",
                        Some("impl blocks are declaration namespaces — only `fn` declarations are valid inside; variables, expressions, and statements are not permitted here (§22)"),
                    ));
                },
            }
        }

        let end = self.eat(&Token::RBrace)?.end;
        Ok(ImplBlock { ty_name, ty_name_span, methods, span: Span { start, end } })
    }

    /// `fn name[<T, r1, ...>](params) [-> RetType] { body }`
    pub(crate) fn parse_function(&mut self) -> (r: Result<FunctionDef, ParseError>)
        requires
            old(self).wf(),
        ensures
            Self::follows(final(self), old(self)),
            r is Ok ==> old(self).pos < final(self).pos,
            r matches Ok(f) ==> old(self).cur() is Fn && f.span.start == old(self).cur_span().start
                && f.span.end == f.body.span.end,
            r matches Ok(f) ==> crate::ast::stmt::block_wf(&f.body),
            r matches Ok(f) ==> block_tree_wf(f.body),
            empty_fn_at(old(self)) ==> (r matches Ok(f) && is_empty_fn_of(old(self), f)
                && final(self).pos == old(self).pos + 6),
        decreases old(self).rem(), 0nat,
    {
        let start = self.peek_span().start;
        self.eat(&Token::Fn)?;
        let (name, name_span) = self.eat_ident()?;
        let generic_params = self.parse_generic_params_opt()?;
        self.eat(&Token::LParen)?;
        let params = self.parse_params()?;
        self.eat(&Token::RParen)?;
        let return_ty = if matches!(self.peek(), Token::Arrow) {
            self.advance();
            Some(self.parse_type()?)
        } else {
            None
        };
        let body = self.parse_block()?;
        let end = body.span.end;
        Ok(FunctionDef { name, name_span, generic_params, params, return_ty, body, span: Span { start, end } })
    }

    /// Optional `<T, r1, E, ...>` — empty when absent.
    fn parse_generic_params_opt(&mut self) -> (r: Result<Vec<String>, ParseError>)
        requires
            old(self).wf(),
        ensures
            Self::follows(final(self), old(self)),
            !(old(self).cur() is Lt) ==> (r matches Ok(v) && v@.len() == 0 && final(self).pos == old(self).pos),
            one_generic_param(old(self)) ==> (r matches Ok(v) && v@.len() == 1
                && Token::Ident(v@[0]) == old(self).ahead(1)->0 && final(self).pos == old(self).pos + 3),
            (old(self).cur() is Lt && old(self).ahead(1) == Some(Token::Gt))
                ==> (r matches Ok(v) && v@.len() == 0 && final(self).pos == old(self).pos + 2),
    {
        if !matches!(self.peek(), Token::Lt) {
            return Ok(Vec::new());
        }
        self.advance();
        let mut params: Vec<String> = Vec::new();
        loop
            invariant_except_break
                one_generic_param(old(self)) ==> (self.pos == old(self).pos + 1 && params@.len() == 0),
                old(self).ahead(1) == Some(Token::Gt) ==> (self.pos == old(self).pos + 1 && params@.len() == 0),
            invariant
                Self::follows(self, old(self)),
                old(self).pos < self.pos,
                old(self).cur() is Lt,
            ensures
                Self::follows(self, old(self)),
                one_generic_param(old(self)) ==> (self.pos == old(self).pos + 3 && params@.len() == 1
                    && Token::Ident(params@[0]) == old(self).ahead(1)->0),
                old(self).ahead(1) == Some(Token::Gt) ==> (self.pos == old(self).pos + 2 && params@.len() == 0),
            decreases self.rem(),
        {
            if matches!(self.peek(), Token::Gt) {
                self.advance();
                break;
            }
            let (name, _) = self.eat_ident()?;
            params.push(name);
            match self.peek() {
                Token::Comma => {
                    self.advance();
                },
                Token::Gt => {
                    self.advance();
                    break;
                },
                _ => {
                    return Err(self.error_expected(
                        "`,` or `>`",
                        Some("add `,` to separate generic parameters or `>` to close the list"),
                    ));
                },
            }
        }
        Ok(params)
    }

    /// Comma-separated parameter list (may be empty). A receiver is bare
    /// `self` or `move self`; `&self` and `&mut self` are rejected.
    fn parse_params(&mut self) -> (r: Result<Vec<Param>, ParseError>)
        requires
            old(self).wf(),
        ensures
            Self::follows(final(self), old(self)),
            old(self).cur() is RParen ==> (r matches Ok(v) && v@.len() == 0 && final(self).pos == old(self).pos),
            r matches Ok(v) ==> final(self).cur() is RParen,
            old(self).cur() is Amp ==> (r matches Err(e) && e matches ParseError::UnexpectedToken { span, found, expected, .. }
                && span == old(self).cur_span() && expected@ == "`self` or `move self`"@
                && (found@ == "`&self`"@ || found@ == "`&mut self`"@ || found@ == "`&mut`"@ || found@ == "`&`"@)),
            r matches Ok(v) ==> forall|i: int| 0 <= i < v@.len() ==> ((#[trigger] v@[i]).consuming
                ==> v@[i].name@ == "self"@ && v@[i].ty is SelfTy),
            old(self).cur() is SelfKw ==> (r matches Ok(v) ==> (v@.len() > 0 && v@[0].name@ == "self"@
                && !v@[0].consuming && v@[0].ty is SelfTy)),
            old(self).cur() is Move ==> (r matches Ok(v) ==> (v@.len() > 0 && v@[0].consuming)),
            (old(self).cur() is Move && !(old(self).ahead(1) matches Some(Token::SelfKw))) ==> r is Err,
    {
        let mut params: Vec<Param> = Vec::new();
        if matches!(self.peek(), Token::RParen) {
            return Ok(params);
        }
        loop
            invariant
                Self::follows(self, old(self)),
                params@.len() == 0 ==> self.pos == old(self).pos,
                old(self).cur() is Amp ==> params@.len() == 0,
                !(old(self).cur() is RParen),
                forall|i: int| 0 <= i < params@.len() ==> ((#[trigger] params@[i]).consuming
                    ==> params@[i].name@ == "self"@ && params@[i].ty is SelfTy),
                params@.len() > 0 ==> (old(self).cur() is SelfKw ==> (params@[0].name@ == "self"@
                    && !params@[0].consuming && params@[0].ty is SelfTy)),
                params@.len() > 0 ==> (old(self).cur() is Move ==> params@[0].consuming),
                (old(self).cur() is Move && !(old(self).ahead(1) matches Some(Token::SelfKw))) ==> params@.len() == 0,
            ensures
                Self::follows(self, old(self)),
                self.cur() is RParen,
            decreases self.rem(),
        {
            let start = self.peek_span().start;
            let at = self.pos;
            if matches!(self.peek(), Token::Move) {
                // `move self` — consuming receiver.
                let move_span = self.advance().1;
                if !matches!(self.peek(), Token::SelfKw) {
                    return Err(self.error_expected(
                        "`self`",
                        Some("`move` in a parameter list is only valid as `move self` (consuming receiver — §18)"),
                    ));
                }
                let (_, self_span) = self.advance();
                params.push(Param {
                    name: owned("self"),
                    name_span: self_span,
                    ty: Type::SelfTy(self_span),
                    consuming: true,
                    span: Span { start: move_span.start, end: self_span.end },
                });
            } else if matches!(self.peek(), Token::SelfKw) {
                // bare `self` — the borrow level is inferred from the body.
                let (_, self_span) = self.advance();
                params.push(Param {
                    name: owned("self"),
                    name_span: self_span,
                    ty: Type::SelfTy(self_span),
                    consuming: false,
                    span: self_span,
                });
            } else if matches!(self.peek(), Token::Amp) {
                // `&self` / `&mut self` do not exist: report the whole form, spanning from `&`.
                let amp_span = self.peek_span();
                self.advance();
                let has_mut = if matches!(self.peek(), Token::Mut) {
                    self.advance();
                    true
                } else {
                    false
                };
                let has_self = if matches!(self.peek(), Token::SelfKw) {
                    self.advance();
                    true
                } else {
                    false
                };
                let form = Self::receiver_form(has_mut, has_self);
                let mut suggestion = String::new();
                push_str(&mut suggestion, form);
                push_str(&mut suggestion, " receiver form does not exist in Ofan — write bare `self` and let the compiler infer the borrow level from the body; use `move self` to force consuming ownership (§18)");
                return Err(ParseError::UnexpectedToken {
                    span: amp_span,
                    found: owned(form),
                    expected: owned("`self` or `move self`"),
                    suggestion: Some(suggestion),
                });
            } else {
                // a named parameter
                let (name, name_span) = self.eat_ident()?;
                self.eat(&Token::Colon)?;
                let ty = self.parse_type()?;
                let end = ty.span().end;
                params.push(Param { name, name_span, ty, consuming: false, span: Span { start, end } });
            }
            assert(at < self.pos);

            match self.peek() {
                Token::Comma => {
                    self.advance();
                },
                Token::RParen => {
                    break;
                },
                _ => {
                    return Err(self.error_expected(
                        "`,` or `)`",
                        Some("add `,` to separate parameters or `)` to close the parameter list"),
                    ));
                },
            }
        }
        Ok(params)
    }

    fn receiver_form(has_mut: bool, has_self: bool) -> (r: &'static str)
        ensures
            r@ == receiver_form_text(has_mut, has_self),
    {
        if has_mut {
            if has_self { "`&mut self`" } else { "`&mut`" }
        } else {
            if has_self { "`&self`" } else { "`&`" }
        }
    }
}

} // verus!

use vstd::prelude::*;
use crate::ast::{BinOp, Expr, Literal, StructFieldInit, UnaryOp};
use crate::lexer::{Span, Token};
use crate::text::owned;
use super::{is_error_at, ParseError, Parser};
use crate::ast::stmt::{block_tree_wf, expr_tree_wf};

verus! {

/// Binding powers (left, right) of a binary operator token; higher binds
/// tighter, and `right == left + 1` makes every operator left-associative.
pub open spec fn binary_bp(tok: Token) -> Option<(u8, u8)> {
    match tok {
        Token::QuestionColon => Some((1u8, 2u8)),
        Token::PipePipe => Some((3u8, 4u8)),
        Token::AmpAmp => Some((5u8, 6u8)),
        Token::EqEq | Token::BangEq => Some((7u8, 8u8)),
        Token::Lt | Token::Gt | Token::LtEq | Token::GtEq => Some((9u8, 10u8)),
        Token::Pipe => Some((11u8, 12u8)),
        Token::Caret => Some((13u8, 14u8)),
        Token::Amp => Some((15u8, 16u8)),
        Token::Shl | Token::Shr => Some((17u8, 18u8)),
        Token::Plus | Token::Minus => Some((19u8, 20u8)),
        Token::Star | Token::Slash | Token::Percent => Some((21u8, 22u8)),
        _ => None,
    }
}

/// How tightly a binary operator token binds its left operand (0 for other
/// tokens).
pub open spec fn left_power(tok: Token) -> int {
    match binary_bp(tok) {
        Some((l, _)) => l as int,
        None => 0,
    }
}

/// The binary operators from loosest to tightest binding: `?:`, `||`, `&&`,
/// equality, comparison, `|`, `^`, `&`, shifts, additive, multiplicative.
/// Each level binds strictly tighter than the one before it, operators of a
/// level bind alike, every operator is left-associative (its right binding
/// power is one more than its left), and no other token is a binary operator.
pub proof fn law_binary_precedence()
    ensures
        left_power(Token::QuestionColon) < left_power(Token::PipePipe),
        left_power(Token::PipePipe) < left_power(Token::AmpAmp),
        left_power(Token::AmpAmp) < left_power(Token::EqEq),
        left_power(Token::EqEq) < left_power(Token::Lt),
        left_power(Token::Lt) < left_power(Token::Pipe),
        left_power(Token::Pipe) < left_power(Token::Caret),
        left_power(Token::Caret) < left_power(Token::Amp),
        left_power(Token::Amp) < left_power(Token::Shl),
        left_power(Token::Shl) < left_power(Token::Plus),
        left_power(Token::Plus) < left_power(Token::Star),
        binary_bp(Token::BangEq) == binary_bp(Token::EqEq),
        binary_bp(Token::Gt) == binary_bp(Token::Lt) && binary_bp(Token::LtEq) == binary_bp(Token::Lt)
            && binary_bp(Token::GtEq) == binary_bp(Token::Lt),
        binary_bp(Token::Shr) == binary_bp(Token::Shl),
        binary_bp(Token::Minus) == binary_bp(Token::Plus),
        binary_bp(Token::Slash) == binary_bp(Token::Star) && binary_bp(Token::Percent) == binary_bp(Token::Star),
        forall|t: Token| #[trigger] binary_bp(t) matches Some((l, r)) ==> r == l + 1,
        forall|t: Token| #[trigger] binary_bp(t) is Some <==> (t is QuestionColon || t is PipePipe || t is AmpAmp
            || t is EqEq || t is BangEq || t is Lt || t is Gt || t is LtEq || t is GtEq || t is Pipe || t is Caret
            || t is Amp || t is Shl || t is Shr || t is Plus || t is Minus || t is Star || t is Slash || t is Percent),
{
}

/// The operator a binary operator token denotes.
pub open spec fn binop_of(tok: Token) -> BinOp {
    match tok {
        Token::QuestionColon => BinOp::Fallback,
        Token::PipePipe => BinOp::Or,
        Token::AmpAmp => BinOp::And,
        Token::EqEq => BinOp::Eq,
        Token::BangEq => BinOp::Ne,
        Token::Lt => BinOp::Lt,
        Token::Gt => BinOp::Gt,
        Token::LtEq => BinOp::Le,
        Token::GtEq => BinOp::Ge,
        Token::Pipe => BinOp::BitOr,
        Token::Caret => BinOp::BitXor,
        Token::Amp => BinOp::BitAnd,
        Token::Shl => BinOp::Shl,
        Token::Shr => BinOp::Shr,
        Token::Plus => BinOp::Add,
        Token::Minus => BinOp::Sub,
        Token::Star => BinOp::Mul,
        Token::Slash => BinOp::Div,
        _ => BinOp::Mod,
    }
}

/// The prefix operator a token introduces, given whether `mut` follows it.
pub open spec fn unary_op_of(tok: Token, then_mut: bool) -> Option<UnaryOp> {
    match tok {
        Token::Minus => Some(UnaryOp::Neg),
        Token::Bang => Some(UnaryOp::Not),
        Token::Tilde => Some(UnaryOp::BitNot),
        Token::Amp => Some(if then_mut { UnaryOp::BorrowMut } else { UnaryOp::Borrow }),
        _ => None,
    }
}

/// The literal a literal token denotes, if it is one.
pub open spec fn literal_of(tok: Token) -> Option<Literal> {
    match tok {
        Token::Integer(n) => Some(Literal::Integer(n)),
        Token::Float(s) => Some(Literal::Float(s)),
        Token::True => Some(Literal::Bool(true)),
        Token::False => Some(Literal::Bool(false)),
        Token::Str(s) => Some(Literal::Str(s)),
        Token::Char(c) => Some(Literal::Char(c)),
        _ => None,
    }
}

/// Whether `tok` ends an operand: no binary operator, `?`, `.`, call or
/// cast continues the expression before it.
pub open spec fn ends_operand(tok: Token) -> bool {
    binary_bp(tok) is None && !(tok is Question || tok is Dot || tok is LParen || tok is As)
}

/// A lone literal at index `i`: a literal token that the next token does
/// not continue.
pub open spec fn lone_literal_at(toks: Seq<(Token, Span)>, i: int) -> bool {
    &&& 0 <= i
    &&& i + 1 < toks.len()
    &&& literal_of(toks[i].0) is Some
    &&& ends_operand(toks[i + 1].0)
}

/// The expression a lone literal at index `i` parses to.
pub open spec fn literal_expr_at(toks: Seq<(Token, Span)>, i: int) -> Expr {
    Expr::Literal(literal_of(toks[i].0)->0, toks[i].1)
}

impl Parser {
    /// An expression.
    pub(crate) fn parse_expr(&mut self) -> (r: Result<Expr, ParseError>)
        requires
            old(self).wf(),
        ensures
            Self::follows(final(self), old(self)),
            r is Ok ==> old(self).pos < final(self).pos,
            lone_literal_at(old(self).tokens@, old(self).pos as int) ==> r == Ok::<Expr, ParseError>(
                literal_expr_at(old(self).tokens@, old(self).pos as int)) && final(self).pos == old(self).pos + 1,
        r matches Ok(e) ==> expr_tree_wf(e),
        decreases old(self).rem(), 8nat,
    {
        self.parse_expr_prec(0)
    }

    /// An expression in which `Name {` opens a struct literal again (inside
    /// parentheses, argument lists and field values).
    pub(crate) fn parse_expr_open(&mut self) -> (r: Result<Expr, ParseError>)
        requires
            old(self).wf(),
        ensures
            Self::follows(final(self), old(self)),
            r is Ok ==> old(self).pos < final(self).pos,
            lone_literal_at(old(self).tokens@, old(self).pos as int) ==> r == Ok::<Expr, ParseError>(
                literal_expr_at(old(self).tokens@, old(self).pos as int)) && final(self).pos == old(self).pos + 1,
        r matches Ok(e) ==> expr_tree_wf(e),
        decreases old(self).rem(), 9nat,
    {
        let prev = self.no_struct_lit;
        self.no_struct_lit = false;
        let r = self.parse_expr();
        self.no_struct_lit = prev;
        r
    }

    /// An expression in which `Name {` never opens a struct literal (a
    /// condition, an iterable, a match subject or guard).
    pub(crate) fn parse_expr_restricted(&mut self) -> (r: Result<Expr, ParseError>)
        requires
            old(self).wf(),
        ensures
            Self::follows(final(self), old(self)),
            r is Ok ==> old(self).pos < final(self).pos,
            lone_literal_at(old(self).tokens@, old(self).pos as int) ==> r == Ok::<Expr, ParseError>(
                literal_expr_at(old(self).tokens@, old(self).pos as int)) && final(self).pos == old(self).pos + 1,
        r matches Ok(e) ==> expr_tree_wf(e),
        decreases old(self).rem(), 9nat,
    {
        let prev = self.no_struct_lit;
        self.no_struct_lit = true;
        let r = self.parse_expr();
        self.no_struct_lit = prev;
        r
    }

    fn binary_bp(tok: &Token) -> (r: Option<(u8, u8)>)
        ensures
            r == binary_bp(*tok),
    {
        match tok {
            Token::QuestionColon => Some((1, 2)),
            Token::PipePipe => Some((3, 4)),
            Token::AmpAmp => Some((5, 6)),
            Token::EqEq | Token::BangEq => Some((7, 8)),
            Token::Lt | Token::Gt | Token::LtEq | Token::GtEq => Some((9, 10)),
            Token::Pipe => Some((11, 12)),
            Token::Caret => Some((13, 14)),
            Token::Amp => Some((15, 16)),
            Token::Shl | Token::Shr => Some((17, 18)),
            Token::Plus | Token::Minus => Some((19, 20)),
            Token::Star | Token::Slash | Token::Percent => Some((21, 22)),
            _ => None,
        }
    }

    fn tok_to_binop(tok: &Token) -> (r: BinOp)
        requires
            binary_bp(*tok) is Some,
        ensures
            r == binop_of(*tok),
    {
        match tok {
            Token::QuestionColon => BinOp::Fallback,
            Token::PipePipe => BinOp::Or,
            Token::AmpAmp => BinOp::And,
            Token::EqEq => BinOp::Eq,
            Token::BangEq => BinOp::Ne,
            Token::Lt => BinOp::Lt,
            Token::Gt => BinOp::Gt,
            Token::LtEq => BinOp::Le,
            Token::GtEq => BinOp::Ge,
            Token::Pipe => BinOp::BitOr,
            Token::Caret => BinOp::BitXor,
            Token::Amp => BinOp::BitAnd,
            Token::Shl => BinOp::Shl,
            Token::Shr => BinOp::Shr,
            Token::Plus => BinOp::Add,
            Token::Minus => BinOp::Sub,
            Token::Star => BinOp::Mul,
            Token::Slash => BinOp::Div,
            _ => BinOp::Mod,
        }
    }

    /// Precedence climbing: operators binding at least as tightly as `min_bp`.
    /// On success the next token is not an operator binding that tightly.
    fn parse_expr_prec(&mut self, min_bp: u8) -> (r: Result<Expr, ParseError>)
        requires
            old(self).wf(),
        ensures
            Self::follows(final(self), old(self)),
            r is Ok ==> old(self).pos < final(self).pos,
            lone_literal_at(old(self).tokens@, old(self).pos as int) ==> r == Ok::<Expr, ParseError>(
                literal_expr_at(old(self).tokens@, old(self).pos as int)) && final(self).pos == old(self).pos + 1,
            r is Ok ==> (binary_bp(final(self).cur()) matches Some((l, _)) ==> l < min_bp),
        r matches Ok(e) ==> expr_tree_wf(e),
        decreases old(self).rem(), 7nat,
    {
        let mut lhs = self.parse_unary()?;

        loop
            invariant
                Self::follows(self, old(self)),
                old(self).pos < self.pos,
                expr_tree_wf(lhs),
                lone_literal_at(old(self).tokens@, old(self).pos as int) ==> (self.pos == old(self).pos + 1
                    && lhs == literal_expr_at(old(self).tokens@, old(self).pos as int)),
            ensures
                Self::follows(self, old(self)),
                old(self).pos < self.pos,
                expr_tree_wf(lhs),
                lone_literal_at(old(self).tokens@, old(self).pos as int) ==> (self.pos == old(self).pos + 1
                    && lhs == literal_expr_at(old(self).tokens@, old(self).pos as int)),
                binary_bp(self.cur()) matches Some((l, _)) ==> l < min_bp,
            decreases self.rem(),
        {
            let bp = Self::binary_bp(self.peek());
            let (left_bp, right_bp) = match bp {
                Some(p) => p,
                None => {
                    break;
                },
            };
            if left_bp < min_bp {
                break;
            }
            let op = Self::tok_to_binop(self.peek());
            self.advance();
            let rhs = self.parse_expr_prec(right_bp)?;
            let span = Span { start: lhs.span().start, end: rhs.span().end };
            lhs = Expr::Binary { op, left: Box::new(lhs), right: Box::new(rhs), span };
        }

        Ok(lhs)
    }

    /// Prefix operators `-`, `!`, `~`, `&`, `&mut`, then a postfix expression.
    fn parse_unary(&mut self) -> (r: Result<Expr, ParseError>)
        requires
            old(self).wf(),
        ensures
            Self::follows(final(self), old(self)),
            r is Ok ==> old(self).pos < final(self).pos,
            lone_literal_at(old(self).tokens@, old(self).pos as int) ==> r == Ok::<Expr, ParseError>(
                literal_expr_at(old(self).tokens@, old(self).pos as int)) && final(self).pos == old(self).pos + 1,
            r matches Ok(e) ==> (unary_op_of(old(self).cur(), old(self).ahead(1) == Some(Token::Mut)) matches Some(op)
                ==> (e matches Expr::Unary { op: o, span, .. } && o == op && span.start == old(self).cur_span().start)),
        r matches Ok(e) ==> expr_tree_wf(e),
        decreases old(self).rem(), 6nat,
    {
        let start = self.peek_span().start;
        let op = match self.peek() {
            Token::Minus => Some(UnaryOp::Neg),
            Token::Bang => Some(UnaryOp::Not),
            Token::Tilde => Some(UnaryOp::BitNot),
            Token::Amp => Some(UnaryOp::Borrow),
            _ => None,
        };
        match op {
            None => self.parse_postfix(),
            Some(op) => {
                let is_amp = matches!(self.peek(), Token::Amp);
                self.advance();
                let op = if is_amp && matches!(self.peek(), Token::Mut) {
                    self.advance();
                    UnaryOp::BorrowMut
                } else {
                    op
                };
                let expr = self.parse_unary()?;
                let end = expr.span().end;
                Ok(Expr::Unary { op, expr: Box::new(expr), span: Span { start, end } })
            },
        }
    }

    /// A primary expression followed by `?`, `.field`, `.method(..)`, `(..)`
    /// or `as Type`, any number of times.
    fn parse_postfix(&mut self) -> (r: Result<Expr, ParseError>)
        requires
            old(self).wf(),
        ensures
            Self::follows(final(self), old(self)),
            r is Ok ==> old(self).pos < final(self).pos,
            lone_literal_at(old(self).tokens@, old(self).pos as int) ==> r == Ok::<Expr, ParseError>(
                literal_expr_at(old(self).tokens@, old(self).pos as int)) && final(self).pos == old(self).pos + 1,
            r is Ok ==> !(final(self).cur() is Question || final(self).cur() is Dot
                || final(self).cur() is LParen || final(self).cur() is As),
        r matches Ok(e) ==> expr_tree_wf(e),
        decreases old(self).rem(), 5nat,
    {
        let mut expr = self.parse_primary()?;

        loop
            invariant
                Self::follows(self, old(self)),
                old(self).pos < self.pos,
                expr_tree_wf(expr),
                lone_literal_at(old(self).tokens@, old(self).pos as int) ==> (self.pos == old(self).pos + 1
                    && expr == literal_expr_at(old(self).tokens@, old(self).pos as int)),
            ensures
                Self::follows(self, old(self)),
                old(self).pos < self.pos,
                expr_tree_wf(expr),
                lone_literal_at(old(self).tokens@, old(self).pos as int) ==> (self.pos == old(self).pos + 1
                    && expr == literal_expr_at(old(self).tokens@, old(self).pos as int)),
                !(self.cur() is Question || self.cur() is Dot || self.cur() is LParen || self.cur() is As),
            decreases self.rem(),
        {
            match self.peek() {
                Token::Question => {
                    let end = self.advance().1.end;
                    let span = Span { start: expr.span().start, end };
                    expr = Expr::Propagate { expr: Box::new(expr), span };
                },
                Token::Dot => {
                    self.advance();
                    let (field, field_span) = self.eat_ident()?;
                    let start = expr.span().start;
                    if matches!(self.peek(), Token::LParen) {
                        self.advance();
                        let args = self.parse_call_args()?;
                        let end = self.eat(&Token::RParen)?.end;
                        expr = Expr::MethodCall {
                            object: Box::new(expr),
                            method: field,
                            method_span: field_span,
                            args,
                            span: Span { start, end },
                        };
                    } else {
                        let span = Span { start, end: field_span.end };
                        expr = Expr::Field { object: Box::new(expr), field, field_span, span };
                    }
                },
                Token::LParen => {
                    self.advance();
                    let args = self.parse_call_args()?;
                    let end = self.eat(&Token::RParen)?.end;
                    let span = Span { start: expr.span().start, end };
                    expr = Expr::Call { callee: Box::new(expr), args, span };
                },
                Token::As => {
                    self.advance();
                    let ty = self.parse_type()?;
                    let span = Span { start: expr.span().start, end: ty.span().end };
                    expr = Expr::Cast { expr: Box::new(expr), ty: Box::new(ty), span };
                },
                _ => {
                    break;
                },
            }
        }

        Ok(expr)
    }

    /// Comma-separated arguments up to (not including) `)`.
    fn parse_call_args(&mut self) -> (r: Result<Vec<Expr>, ParseError>)
        requires
            old(self).wf(),
        ensures
            Self::follows(final(self), old(self)),
            r is Ok ==> final(self).cur() is RParen,
            old(self).cur() is RParen ==> (r matches Ok(v) && v@.len() == 0 && final(self).pos == old(self).pos),
            r matches Ok(v) ==> forall|k: int| 0 <= k < v@.len() ==> expr_tree_wf(#[trigger] v@[k]),
        decreases old(self).rem(), 10nat,
    {
        let mut args: Vec<Expr> = Vec::new();
        if matches!(self.peek(), Token::RParen) {
            return Ok(args);
        }
        loop
            invariant
                Self::follows(self, old(self)),
                !(old(self).cur() is RParen),
                forall|k: int| 0 <= k < args@.len() ==> expr_tree_wf(#[trigger] args@[k]),
            ensures
                Self::follows(self, old(self)),
                !(old(self).cur() is RParen),
                self.cur() is RParen,
                forall|k: int| 0 <= k < args@.len() ==> expr_tree_wf(#[trigger] args@[k]),
            decreases self.rem(),
        {
            let e = self.parse_expr_open()?;
            args.push(e);
            match self.peek() {
                Token::Comma => {
                    self.advance();
                },
                Token::RParen => {
                    break;
                },
                _ => {
                    return Err(self.error_expected(
                        "`,` or `)`",
                        Some("add `,` to separate arguments or `)` to close the argument list"),
                    ));
                },
            }
        }
        Ok(args)
    }

    /// Whether the tokens at the cursor open a struct literal: `Name {` followed
    /// by `}` or by `field =`, where struct literals are allowed.
    fn at_struct_lit(&self) -> (r: bool)
        requires
            self.wf(),
        ensures
            r == (self.cur() is Ident && self.ahead(1) == Some(Token::LBrace) && !self.no_struct_lit
                && (self.ahead(2) == Some(Token::RBrace)
                    || (self.ahead(2) matches Some(Token::Ident(_)) && self.ahead(3) == Some(Token::Equals)))),
    {
        if self.no_struct_lit || !matches!(self.peek(), Token::Ident(_)) {
            return false;
        }
        match self.peek_at(1) {
            Some(Token::LBrace) => {},
            _ => {
                return false;
            },
        }
        match self.peek_at(2) {
            Some(Token::RBrace) => true,
            Some(Token::Ident(_)) => matches!(self.peek_at(3), Some(Token::Equals)),
            _ => false,
        }
    }

    /// A literal, name, parenthesized expression, block, struct literal or
    /// control-flow expression.
    fn parse_primary(&mut self) -> (r: Result<Expr, ParseError>)
        requires
            old(self).wf(),
        ensures
            Self::follows(final(self), old(self)),
            r is Ok ==> old(self).pos < final(self).pos,
            literal_of(old(self).cur()) matches Some(lit) ==>
                r == Ok::<Expr, ParseError>(Expr::Literal(lit, old(self).cur_span())) && final(self).pos == old(self).pos + 1,
            old(self).cur() is SelfKw ==> (r matches Ok(Expr::Ident(n, s)) && n@ == "self"@ && s == old(self).cur_span()),
            old(self).cur() is If ==> (r matches Ok(e) ==> e is If),
            old(self).cur() is While ==> (r matches Ok(e) ==> e is While),
            old(self).cur() is Loop ==> (r matches Ok(e) ==> e is Loop),
            old(self).cur() is For ==> (r matches Ok(e) ==> e is For),
            old(self).cur() is Match ==> (r matches Ok(e) ==> e is Match),
            old(self).cur() is LBrace ==> (r matches Ok(e) ==> e is Block),
            old(self).cur() is Ident && old(self).no_struct_lit ==> (r matches Ok(e) && e is Ident),
            !(literal_of(old(self).cur()) is Some || old(self).cur() is Ident || old(self).cur() is SelfKw
                || old(self).cur() is LParen || old(self).cur() is LBrace || old(self).cur() is If
                || old(self).cur() is While || old(self).cur() is Loop || old(self).cur() is For
                || old(self).cur() is Match) ==> (r matches Err(e) && is_error_at(old(self), e, "an expression"@,
                    Some("expressions can start with a literal, identifier, `(`, or a keyword like `if`/`match`/`loop`"@))),
        r matches Ok(e) ==> expr_tree_wf(e),
        decreases old(self).rem(), 4nat,
    {
        let span = self.peek_span();
        match self.peek() {
            Token::Integer(_) | Token::Float(_) | Token::True | Token::False | Token::Str(_) | Token::Char(_) => {
                let (tok, s) = self.advance();
                let lit = match tok {
                    Token::Integer(n) => Literal::Integer(n),
                    Token::Float(f) => Literal::Float(f),
                    Token::True => Literal::Bool(true),
                    Token::False => Literal::Bool(false),
                    Token::Str(raw) => Literal::Str(raw),
                    Token::Char(c) => Literal::Char(c),
                    _ => Literal::Bool(false),
                };
                Ok(Expr::Literal(lit, s))
            },
            Token::Ident(_) => {
                if self.at_struct_lit() {
                    return self.parse_struct_lit();
                }
                let (name, s) = self.eat_ident()?;
                Ok(Expr::Ident(name, s))
            },
            Token::SelfKw => {
                let s = self.advance().1;
                Ok(Expr::Ident(owned("self"), s))
            },
            Token::LParen => {
                self.advance();
                let expr = self.parse_expr_open()?;
                self.eat(&Token::RParen)?;
                Ok(expr)
            },
            Token::LBrace => {
                let block = self.parse_block()?;
                Ok(Expr::Block(Box::new(block)))
            },
            Token::If => self.parse_if_expr(),
            Token::While => self.parse_while_expr(),
            Token::Loop => self.parse_loop_expr(),
            Token::For => self.parse_for_expr(),
            Token::Match => self.parse_match_expr(),
            _ => Err(self.error_expected(
                "an expression",
                Some("expressions can start with a literal, identifier, `(`, or a keyword like `if`/`match`/`loop`"),
            )),
        }
    }

    /// `Name { field = expr, ... }` — the trailing comma is optional.
    fn parse_struct_lit(&mut self) -> (r: Result<Expr, ParseError>)
        requires
            old(self).wf(),
        ensures
            Self::follows(final(self), old(self)),
            r is Ok ==> old(self).pos < final(self).pos,
            r matches Ok(e) ==> (e matches Expr::StructLit { name, name_span, .. }
                && old(self).cur() == Token::Ident(name) && name_span == old(self).cur_span()),
        r matches Ok(e) ==> expr_tree_wf(e),
            (old(self).cur() is Ident && old(self).ahead(1) == Some(Token::LBrace) && old(self).ahead(2) == Some(Token::RBrace))
                ==> (r matches Ok(Expr::StructLit { fields, span, .. }) && fields@.len() == 0
                    && span == (Span { start: old(self).cur_span().start, end: old(self).tokens@[old(self).pos + 2].1.end })
                    && final(self).pos == old(self).pos + 3),
        decreases old(self).rem(), 3nat,
    {
        let (name, name_span) = self.eat_ident()?;
        self.eat(&Token::LBrace)?;
        let mut fields: Vec<StructFieldInit> = Vec::new();
        while !matches!(self.peek(), Token::RBrace)
            invariant
                Self::follows(self, old(self)),
                old(self).pos < self.pos,
                (old(self).cur() is Ident && old(self).ahead(1) == Some(Token::LBrace) && old(self).ahead(2) == Some(Token::RBrace))
                    ==> (self.pos == old(self).pos + 2 && fields@.len() == 0 && name_span == old(self).cur_span()),
                forall|k: int| 0 <= k < fields@.len() ==> expr_tree_wf(*(#[trigger] fields@[k]).value),
            decreases self.rem(),
        {
            let (fname, fspan) = self.eat_ident()?;
            self.eat(&Token::Equals)?;
            let value = self.parse_expr_open()?;
            fields.push(StructFieldInit { name: fname, name_span: fspan, value: Box::new(value) });
            match self.peek() {
                Token::Comma => {
                    self.advance();
                },
                Token::RBrace => {},
                _ => {
                    return Err(self.error_expected(
                        "`,` or `}`",
                        Some("add `,` to separate field initializers or `}` to close the struct literal"),
                    ));
                },
            }
        }
        let end = self.eat(&Token::RBrace)?.end;
        Ok(Expr::StructLit { name, name_span, fields, span: Span { start: name_span.start, end } })
    }
}

} // verus!

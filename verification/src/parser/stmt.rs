use vstd::prelude::*;
use crate::ast::{BinOp, Block, Expr, Stmt, Type};
use crate::ast::stmt::{block_tree_wf, block_wf, expr_tree_wf, stmt_tree_wf};
use crate::lexer::{Span, Token};
use super::{ParseError, Parser};
use super::expr::{lone_literal_at, literal_expr_at};

verus! {

/// Expressions that end in a block and so need no `;` as statements.
pub open spec fn is_block_like(e: Expr) -> bool {
    e is If || e is While || e is Loop || e is For || e is Match || e is Block
}

/// An empty block `{ }` at the cursor.
pub open spec fn empty_block_at(p: &Parser) -> bool {
    p.cur() is LBrace && p.ahead(1) == Some(Token::RBrace)
}

/// A block `{ literal }` at the cursor, whose value is a lone literal.
pub open spec fn literal_block_at(p: &Parser) -> bool {
    p.cur() is LBrace && lone_literal_at(p.tokens@, p.pos + 1) && p.ahead(2) == Some(Token::RBrace)
}

/// What a block parse yields on an empty block or a literal-valued block.
pub open spec fn simple_block_parsed(old: &Parser, new: &Parser, r: Result<Block, ParseError>) -> bool {
    &&& empty_block_at(old) ==> (r matches Ok(b) && b.stmts@.len() == 0 && b.tail is None
        && b.span == (Span { start: old.cur_span().start, end: old.tokens@[old.pos + 1].1.end })
        && new.pos == old.pos + 2)
    &&& literal_block_at(old) ==> (r matches Ok(b) && b.stmts@.len() == 0
        && (b.tail matches Some(t) && *t == literal_expr_at(old.tokens@, old.pos + 1))
        && b.span == (Span { start: old.cur_span().start, end: old.tokens@[old.pos + 2].1.end })
        && new.pos == old.pos + 3)
}

impl Parser {
    /// `{ stmt* [tail] }`, with struct literals allowed again inside.
    pub(crate) fn parse_block(&mut self) -> (r: Result<Block, ParseError>)
        requires
            old(self).wf(),
        ensures
            Self::follows(final(self), old(self)),
            r is Ok ==> old(self).pos < final(self).pos,
            r matches Ok(b) ==> old(self).cur() is LBrace && b.span.start == old(self).cur_span().start
                && final(self).tokens@[final(self).pos - 1].0 is RBrace
                && b.span.end == final(self).tokens@[final(self).pos - 1].1.end,
            simple_block_parsed(old(self), final(self), r),
            r matches Ok(b) ==> block_wf(&b),
            r matches Ok(b) ==> block_tree_wf(b),
        decreases old(self).rem(), 3nat,
    {
        let prev = self.no_struct_lit;
        self.no_struct_lit = false;
        let r = self.parse_block_body();
        self.no_struct_lit = prev;
        r
    }

    fn parse_block_body(&mut self) -> (r: Result<Block, ParseError>)
        requires
            old(self).wf(),
        ensures
            Self::follows(final(self), old(self)),
            r is Ok ==> old(self).pos < final(self).pos,
            r matches Ok(b) ==> old(self).cur() is LBrace && b.span.start == old(self).cur_span().start
                && final(self).tokens@[final(self).pos - 1].0 is RBrace
                && b.span.end == final(self).tokens@[final(self).pos - 1].1.end,
            simple_block_parsed(old(self), final(self), r),
            r matches Ok(b) ==> block_wf(&b),
            r matches Ok(b) ==> block_tree_wf(b),
        decreases old(self).rem(), 2nat,
    {
        let start = self.peek_span().start;
        self.eat(&Token::LBrace)?;

        let mut stmts: Vec<Stmt> = Vec::new();
        let mut tail: Option<Box<Expr>> = None;

        loop
            invariant_except_break
                empty_block_at(old(self)) ==> (self.pos == old(self).pos + 1 && stmts@.len() == 0 && tail is None),
                literal_block_at(old(self)) ==> (self.pos == old(self).pos + 1 && stmts@.len() == 0 && tail is None),
            invariant
                Self::follows(self, old(self)),
                old(self).pos < self.pos,
                old(self).cur() is LBrace,
                start == old(self).cur_span().start,
                forall|i: int| 0 <= i < stmts@.len() ==>
                    (#[trigger] stmts@[i] matches Stmt::Expr { has_semicolon, .. } ==> has_semicolon),
                forall|i: int| 0 <= i < stmts@.len() ==> stmt_tree_wf(#[trigger] stmts@[i]),
                tail matches Some(t) ==> expr_tree_wf(*t),
            ensures
                Self::follows(self, old(self)),
                old(self).pos < self.pos,
                old(self).cur() is LBrace,
                start == old(self).cur_span().start,
                forall|i: int| 0 <= i < stmts@.len() ==>
                    (#[trigger] stmts@[i] matches Stmt::Expr { has_semicolon, .. } ==> has_semicolon),
                forall|i: int| 0 <= i < stmts@.len() ==> stmt_tree_wf(#[trigger] stmts@[i]),
                tail matches Some(t) ==> expr_tree_wf(*t),
                empty_block_at(old(self)) ==> (self.pos == old(self).pos + 1 && stmts@.len() == 0 && tail is None),
                literal_block_at(old(self)) ==> (self.pos == old(self).pos + 2 && stmts@.len() == 0
                    && (tail matches Some(t) && *t == literal_expr_at(old(self).tokens@, old(self).pos + 1))),
            decreases self.rem(),
        {
            if matches!(self.peek(), Token::RBrace) {
                break;
            }
            let stmt = self.parse_stmt()?;
            match stmt {
                // An expression right before `}` without `;` is the block's value.
                Stmt::Expr { expr, has_semicolon: false, .. } => {
                    tail = Some(expr);
                    break;
                },
                s => {
                    stmts.push(s);
                },
            }
        }

        assert((empty_block_at(old(self)) || literal_block_at(old(self))) ==> self.cur() == Token::RBrace);
        let end = self.eat(&Token::RBrace)?.end;
        let b = Block { stmts, tail, span: Span { start, end } };
        assert(block_wf(&b));
        Ok(b)
    }

    /// One statement, chosen by its first token.
    pub(crate) fn parse_stmt(&mut self) -> (r: Result<Stmt, ParseError>)
        requires
            old(self).wf(),
        ensures
            Self::follows(final(self), old(self)),
            r is Ok ==> old(self).pos < final(self).pos,
            lone_literal_at(old(self).tokens@, old(self).pos as int) && old(self).ahead(1) == Some(Token::Semicolon)
                ==> (r matches Ok(Stmt::Expr { expr, has_semicolon: true, .. })
                    && *expr == literal_expr_at(old(self).tokens@, old(self).pos as int) && final(self).pos == old(self).pos + 2),
            lone_literal_at(old(self).tokens@, old(self).pos as int) && old(self).ahead(1) == Some(Token::RBrace)
                ==> (r matches Ok(Stmt::Expr { expr, has_semicolon: false, .. })
                    && *expr == literal_expr_at(old(self).tokens@, old(self).pos as int) && final(self).pos == old(self).pos + 1),
            old(self).cur() is Return && old(self).ahead(1) == Some(Token::Semicolon)
                ==> (r matches Ok(Stmt::Return { value: None, span })
                    && span == (Span { start: old(self).cur_span().start, end: old(self).tokens@[old(self).pos + 1].1.end })
                    && final(self).pos == old(self).pos + 2),
            old(self).cur() is Return && lone_literal_at(old(self).tokens@, old(self).pos + 1)
                && old(self).ahead(2) == Some(Token::Semicolon)
                ==> (r matches Ok(Stmt::Return { value: Some(v), .. })
                    && *v == literal_expr_at(old(self).tokens@, old(self).pos + 1) && final(self).pos == old(self).pos + 3),
            old(self).cur() is Break && old(self).ahead(1) == Some(Token::Semicolon)
                ==> (r matches Ok(Stmt::Break { value: None, span })
                    && span == (Span { start: old(self).cur_span().start, end: old(self).tokens@[old(self).pos + 1].1.end })
                    && final(self).pos == old(self).pos + 2),
            old(self).cur() is Break && lone_literal_at(old(self).tokens@, old(self).pos + 1)
                && old(self).ahead(2) == Some(Token::Semicolon)
                ==> (r matches Ok(Stmt::Break { value: Some(v), .. })
                    && *v == literal_expr_at(old(self).tokens@, old(self).pos + 1) && final(self).pos == old(self).pos + 3),
            old(self).cur() is Let ==> (r matches Ok(s) ==> s is Let),
            old(self).cur() is Const ==> (r matches Ok(s) ==> s is Const),
            old(self).cur() is Return ==> (r matches Ok(s) ==> s is Return),
            old(self).cur() is Break ==> (r matches Ok(s) ==> s is Break),
            old(self).cur() is Continue ==> (r matches Ok(s) ==> s is Continue),
            !(old(self).cur() is Let || old(self).cur() is Const || old(self).cur() is Return
                || old(self).cur() is Break || old(self).cur() is Continue)
                ==> (r matches Ok(s) ==> (s is Assign || s is Expr)),
            r matches Ok(Stmt::Expr { has_semicolon, .. }) ==>
                (!has_semicolon ==> (final(self).cur() is RBrace || final(self).cur() is Eof)),
        r matches Ok(s) ==> stmt_tree_wf(s),
        decreases old(self).rem(), 10nat,
    {
        match self.peek() {
            Token::Let => self.parse_let(),
            Token::Const => self.parse_const(),
            Token::Return => self.parse_return(),
            Token::Break => self.parse_break(),
            Token::Continue => self.parse_continue(),
            _ => self.parse_expr_stmt(),
        }
    }

    /// `let [mut] name[: Type] = init;`
    fn parse_let(&mut self) -> (r: Result<Stmt, ParseError>)
        requires
            old(self).wf(),
        ensures
            Self::follows(final(self), old(self)),
            r is Ok ==> old(self).pos < final(self).pos,
            old(self).cur() is Let ==> (old(self).ahead(1) matches Some(Token::Ident(n)) ==> (
                (old(self).ahead(2) == Some(Token::Equals) && lone_literal_at(old(self).tokens@, old(self).pos + 3)
                && old(self).ahead(4) == Some(Token::Semicolon))
                ==> (r matches Ok(Stmt::Let { mutable: false, name, ty: None, init, .. }) && name == n
                    && *init == literal_expr_at(old(self).tokens@, old(self).pos + 3) && final(self).pos == old(self).pos + 5))),
            r matches Ok(s) ==> s is Let && old(self).cur() is Let,
        r matches Ok(s) ==> stmt_tree_wf(s),
        decreases old(self).rem(), 9nat,
    {
        let start = self.peek_span().start;
        self.eat(&Token::Let)?;
        let mutable = if matches!(self.peek(), Token::Mut) {
            self.advance();
            true
        } else {
            false
        };
        let (name, name_span) = self.eat_ident()?;
        let ty = if matches!(self.peek(), Token::Colon) {
            self.advance();
            Some(self.parse_type()?)
        } else {
            None
        };
        self.eat(&Token::Equals)?;
        let init = Box::new(self.parse_expr()?);
        let end = self.eat(&Token::Semicolon)?.end;
        Ok(Stmt::Let { mutable, name, name_span, ty, init, span: Span { start, end } })
    }

    /// `const name: Type = init;`
    fn parse_const(&mut self) -> (r: Result<Stmt, ParseError>)
        requires
            old(self).wf(),
        ensures
            Self::follows(final(self), old(self)),
            r is Ok ==> old(self).pos < final(self).pos,
            r matches Ok(s) ==> s is Const && old(self).cur() is Const,
        r matches Ok(s) ==> stmt_tree_wf(s),
            old(self).cur() is Const ==> (old(self).ahead(1) matches Some(Token::Ident(n)) ==> (
                old(self).ahead(3) matches Some(Token::Ident(t)) ==> (
                (t@ != "Self"@ && old(self).ahead(2) == Some(Token::Colon) && old(self).ahead(4) == Some(Token::Equals)
                    && lone_literal_at(old(self).tokens@, old(self).pos + 5) && old(self).ahead(6) == Some(Token::Semicolon))
                ==> (r matches Ok(Stmt::Const { name, ty, init, .. }) && name == n
                    && (ty matches Type::Named { name: tn, args, .. } && tn == t && args@.len() == 0)
                    && *init == literal_expr_at(old(self).tokens@, old(self).pos + 5)
                    && final(self).pos == old(self).pos + 7)))),
        decreases old(self).rem(), 9nat,
    {
        let start = self.peek_span().start;
        self.eat(&Token::Const)?;
        let (name, name_span) = self.eat_ident()?;
        self.eat(&Token::Colon)?;
        let ty = self.parse_type()?;
        self.eat(&Token::Equals)?;
        let init = Box::new(self.parse_expr()?);
        let end = self.eat(&Token::Semicolon)?.end;
        Ok(Stmt::Const { name, name_span, ty, init, span: Span { start, end } })
    }

    /// `return [expr];`
    fn parse_return(&mut self) -> (r: Result<Stmt, ParseError>)
        requires
            old(self).wf(),
        ensures
            Self::follows(final(self), old(self)),
            r is Ok ==> old(self).pos < final(self).pos,
            old(self).cur() is Return && old(self).ahead(1) == Some(Token::Semicolon)
                ==> (r matches Ok(Stmt::Return { value: None, span })
                    && span == (Span { start: old(self).cur_span().start, end: old(self).tokens@[old(self).pos + 1].1.end })
                    && final(self).pos == old(self).pos + 2),
            old(self).cur() is Return && lone_literal_at(old(self).tokens@, old(self).pos + 1)
                && old(self).ahead(2) == Some(Token::Semicolon)
                ==> (r matches Ok(Stmt::Return { value: Some(v), .. })
                    && *v == literal_expr_at(old(self).tokens@, old(self).pos + 1) && final(self).pos == old(self).pos + 3),
            r matches Ok(s) ==> s is Return && old(self).cur() is Return,
            r matches Ok(Stmt::Return { value, .. }) ==>
                (value is None <==> old(self).ahead(1) == Some(Token::Semicolon)),
        r matches Ok(s) ==> stmt_tree_wf(s),
        decreases old(self).rem(), 9nat,
    {
        let start = self.peek_span().start;
        self.eat(&Token::Return)?;
        let value = if matches!(self.peek(), Token::Semicolon) {
            None
        } else {
            Some(Box::new(self.parse_expr()?))
        };
        let end = self.eat(&Token::Semicolon)?.end;
        Ok(Stmt::Return { value, span: Span { start, end } })
    }

    /// `break [expr];`
    fn parse_break(&mut self) -> (r: Result<Stmt, ParseError>)
        requires
            old(self).wf(),
        ensures
            Self::follows(final(self), old(self)),
            r is Ok ==> old(self).pos < final(self).pos,
            old(self).cur() is Break && old(self).ahead(1) == Some(Token::Semicolon)
                ==> (r matches Ok(Stmt::Break { value: None, span })
                    && span == (Span { start: old(self).cur_span().start, end: old(self).tokens@[old(self).pos + 1].1.end })
                    && final(self).pos == old(self).pos + 2),
            old(self).cur() is Break && lone_literal_at(old(self).tokens@, old(self).pos + 1)
                && old(self).ahead(2) == Some(Token::Semicolon)
                ==> (r matches Ok(Stmt::Break { value: Some(v), .. })
                    && *v == literal_expr_at(old(self).tokens@, old(self).pos + 1) && final(self).pos == old(self).pos + 3),
            r matches Ok(s) ==> s is Break && old(self).cur() is Break,
            r matches Ok(Stmt::Break { value, .. }) ==>
                (value is None <==> old(self).ahead(1) == Some(Token::Semicolon)),
        r matches Ok(s) ==> stmt_tree_wf(s),
        decreases old(self).rem(), 9nat,
    {
        let start = self.peek_span().start;
        self.eat(&Token::Break)?;
        let value = if matches!(self.peek(), Token::Semicolon) {
            None
        } else {
            Some(Box::new(self.parse_expr()?))
        };
        let end = self.eat(&Token::Semicolon)?.end;
        Ok(Stmt::Break { value, span: Span { start, end } })
    }

    /// `continue;`
    fn parse_continue(&mut self) -> (r: Result<Stmt, ParseError>)
        requires
            old(self).wf(),
        ensures
            Self::follows(final(self), old(self)),
            r is Ok ==> old(self).pos < final(self).pos,
            r matches Ok(s) ==> s is Continue && old(self).cur() is Continue
                && old(self).ahead(1) == Some(Token::Semicolon) && final(self).pos == old(self).pos + 2,
            old(self).cur() is Continue && old(self).ahead(1) == Some(Token::Semicolon) ==> r is Ok,
    {
        let start = self.peek_span().start;
        self.eat(&Token::Continue)?;
        let end = self.eat(&Token::Semicolon)?.end;
        Ok(Stmt::Continue { span: Span { start, end } })
    }

    /// An expression statement, or an assignment `target [op]= value;`.
    fn parse_expr_stmt(&mut self) -> (r: Result<Stmt, ParseError>)
        requires
            old(self).wf(),
        ensures
            Self::follows(final(self), old(self)),
            r is Ok ==> old(self).pos < final(self).pos,
            lone_literal_at(old(self).tokens@, old(self).pos as int) && old(self).ahead(1) == Some(Token::Semicolon)
                ==> (r matches Ok(Stmt::Expr { expr, has_semicolon: true, .. })
                    && *expr == literal_expr_at(old(self).tokens@, old(self).pos as int) && final(self).pos == old(self).pos + 2),
            lone_literal_at(old(self).tokens@, old(self).pos as int) && old(self).ahead(1) == Some(Token::RBrace)
                ==> (r matches Ok(Stmt::Expr { expr, has_semicolon: false, .. })
                    && *expr == literal_expr_at(old(self).tokens@, old(self).pos as int) && final(self).pos == old(self).pos + 1),
            r matches Ok(s) ==> (s is Assign || s is Expr),
            r matches Ok(Stmt::Assign { op, .. }) ==> exists|k: int| old(self).pos < k < final(self).pos
                && #[trigger] assign_op_spec(final(self).tokens@[k].0) == Some(op),
            r matches Ok(Stmt::Expr { has_semicolon, .. }) ==>
                (!has_semicolon ==> (final(self).cur() is RBrace || final(self).cur() is Eof)),
            r matches Ok(Stmt::Expr { expr, has_semicolon, .. }) ==>
                (!is_block_like(*expr) && has_semicolon ==> final(self).tokens@[final(self).pos - 1].0 is Semicolon),
        r matches Ok(s) ==> stmt_tree_wf(s),
        decreases old(self).rem(), 9nat,
    {
        let start = self.peek_span().start;
        let expr = self.parse_expr()?;

        let ghost k = self.pos as int;
        let assign_op: Option<Option<BinOp>> = assign_op_of(self.peek());

        if let Some(op) = assign_op {
            self.advance();
            let value = Box::new(self.parse_expr()?);
            let end = self.eat(&Token::Semicolon)?.end;
            proof {
                assert(assign_op_spec(self.tokens@[k].0) == Some(op));
            }
            return Ok(Stmt::Assign { target: Box::new(expr), op, value, span: Span { start, end } });
        }

        // Block-like expressions need no trailing `;`.
        let block_like = match &expr {
            Expr::If { .. } | Expr::While { .. } | Expr::Loop { .. } | Expr::For { .. }
            | Expr::Match { .. } | Expr::Block(..) => true,
            _ => false,
        };
        if block_like {
            // An explicit `;` discards the value; without one the expression is the
            // tail only when the enclosing block closes right after it.
            let explicit_semi = if matches!(self.peek(), Token::Semicolon) {
                self.advance();
                true
            } else {
                false
            };
            let at_close = matches!(self.peek(), Token::RBrace | Token::Eof);
            let has_semicolon = explicit_semi || !at_close;
            let end = expr.span().end;
            return Ok(Stmt::Expr { expr: Box::new(expr), has_semicolon, span: Span { start, end } });
        }

        // Tail position: an expression right before `}` needs no `;`.
        if matches!(self.peek(), Token::RBrace | Token::Eof) {
            let end = expr.span().end;
            return Ok(Stmt::Expr { expr: Box::new(expr), has_semicolon: false, span: Span { start, end } });
        }

        let end = self.eat(&Token::Semicolon)?.end;
        Ok(Stmt::Expr { expr: Box::new(expr), has_semicolon: true, span: Span { start, end } })
    }
}
/// The assignment a token introduces after an assignment target: `=` is a
/// plain assignment (`Some(None)`), `op=` a compound one with the operator
/// `op` (`Some(Some(op))`); any other token introduces none.
pub open spec fn assign_op_spec(tok: Token) -> Option<Option<BinOp>> {
    match tok {
        Token::Equals => Some(None),
        Token::PlusEq => Some(Some(BinOp::Add)),
        Token::MinusEq => Some(Some(BinOp::Sub)),
        Token::StarEq => Some(Some(BinOp::Mul)),
        Token::SlashEq => Some(Some(BinOp::Div)),
        Token::PercentEq => Some(Some(BinOp::Mod)),
        _ => None,
    }
}

/// The assignment a token introduces (see `assign_op_spec`).
pub fn assign_op_of(tok: &Token) -> (r: Option<Option<BinOp>>)
    ensures
        r == assign_op_spec(*tok),
        *tok is Equals ==> r == Some(None::<BinOp>),
        *tok is PlusEq ==> r == Some(Some(super::expr::binop_of(Token::Plus))),
        *tok is MinusEq ==> r == Some(Some(super::expr::binop_of(Token::Minus))),
        *tok is StarEq ==> r == Some(Some(super::expr::binop_of(Token::Star))),
        *tok is SlashEq ==> r == Some(Some(super::expr::binop_of(Token::Slash))),
        *tok is PercentEq ==> r == Some(Some(super::expr::binop_of(Token::Percent))),
{
    match tok {
        Token::Equals => Some(None),
        Token::PlusEq => Some(Some(BinOp::Add)),
        Token::MinusEq => Some(Some(BinOp::Sub)),
        Token::StarEq => Some(Some(BinOp::Mul)),
        Token::SlashEq => Some(Some(BinOp::Div)),
        Token::PercentEq => Some(Some(BinOp::Mod)),
        _ => None,
    }
}

/// A compound assignment `target op= value` applies the same operator as
/// the binary expression `target op value`: `+=` adds, `-=` subtracts, `*=`
/// multiplies, `/=` divides and `%=` takes the remainder; `=` applies none,
/// and only these six tokens introduce an assignment.
pub proof fn law_compound_assignment_ops()
    ensures
        assign_op_spec(Token::PlusEq) == Some(Some(super::expr::binop_of(Token::Plus))) && super::expr::binop_of(Token::Plus) == BinOp::Add,
        assign_op_spec(Token::MinusEq) == Some(Some(super::expr::binop_of(Token::Minus))) && super::expr::binop_of(Token::Minus) == BinOp::Sub,
        assign_op_spec(Token::StarEq) == Some(Some(super::expr::binop_of(Token::Star))) && super::expr::binop_of(Token::Star) == BinOp::Mul,
        assign_op_spec(Token::SlashEq) == Some(Some(super::expr::binop_of(Token::Slash))) && super::expr::binop_of(Token::Slash) == BinOp::Div,
        assign_op_spec(Token::PercentEq) == Some(Some(super::expr::binop_of(Token::Percent))) && super::expr::binop_of(Token::Percent) == BinOp::Mod,
        assign_op_spec(Token::Equals) == Some(None::<BinOp>),
        forall|t: Token| #[trigger] assign_op_spec(t) is Some <==> (t is Equals || t is PlusEq || t is MinusEq
            || t is StarEq || t is SlashEq || t is PercentEq),
{
}

} // verus!

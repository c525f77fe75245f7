use vstd::prelude::*;
use crate::ast::{BorrowKind, Expr};
use crate::lexer::{Span, Token};
use super::{ParseError, Parser};
use super::expr::{lone_literal_at, literal_expr_at};
use crate::ast::stmt::expr_tree_wf;

verus! {

impl Parser {
    /// `if cond { .. } [else { .. } | else if ..]`
    pub(crate) fn parse_if_expr(&mut self) -> (r: Result<Expr, ParseError>)
        requires
            old(self).wf(),
        ensures
            Self::follows(final(self), old(self)),
            r is Ok ==> old(self).pos < final(self).pos,
            (old(self).cur() is If && lone_literal_at(old(self).tokens@, old(self).pos + 1)
                && old(self).ahead(2) == Some(Token::LBrace) && old(self).ahead(3) == Some(Token::RBrace)
                && old(self).ahead(4) != Some(Token::Else))
                ==> (r matches Ok(Expr::If { condition, then_block, else_branch: None, .. })
                    && *condition == literal_expr_at(old(self).tokens@, old(self).pos + 1)
                    && then_block.stmts@.len() == 0 && then_block.tail is None && final(self).pos == old(self).pos + 4),
            r matches Ok(e) ==> (e matches Expr::If { else_branch, span, .. } && old(self).cur() is If
                && span.start == old(self).cur_span().start
                && (else_branch matches Some(b) ==> (*b is If || *b is Block))),
        r matches Ok(e) ==> expr_tree_wf(e),
        decreases old(self).rem(), 3nat,
    {
        let start = self.peek_span().start;
        self.eat(&Token::If)?;
        let condition = Box::new(self.parse_expr_restricted()?);
        let then_block = Box::new(self.parse_block()?);

        let else_branch = if matches!(self.peek(), Token::Else) {
            self.advance();
            if matches!(self.peek(), Token::If) {
                Some(Box::new(self.parse_if_expr()?))
            } else {
                let block = self.parse_block()?;
                let e = Expr::Block(Box::new(block));
                assert(expr_tree_wf(e));
                Some(Box::new(e))
            }
        } else {
            None
        };

        let end = match &else_branch {
            Some(e) => e.span().end,
            None => then_block.span.end,
        };
        Ok(Expr::If { condition, then_block, else_branch, span: Span { start, end } })
    }

    /// `while cond { .. }`
    pub(crate) fn parse_while_expr(&mut self) -> (r: Result<Expr, ParseError>)
        requires
            old(self).wf(),
        ensures
            Self::follows(final(self), old(self)),
            r is Ok ==> old(self).pos < final(self).pos,
            (old(self).cur() is While && lone_literal_at(old(self).tokens@, old(self).pos + 1)
                && old(self).ahead(2) == Some(Token::LBrace) && old(self).ahead(3) == Some(Token::RBrace))
                ==> (r matches Ok(Expr::While { condition, body, .. })
                    && *condition == literal_expr_at(old(self).tokens@, old(self).pos + 1)
                    && body.stmts@.len() == 0 && body.tail is None && final(self).pos == old(self).pos + 4),
            r matches Ok(e) ==> (e matches Expr::While { body, span, .. } && old(self).cur() is While
                && span.start == old(self).cur_span().start && span.end == body.span.end),
        r matches Ok(e) ==> expr_tree_wf(e),
        decreases old(self).rem(), 3nat,
    {
        let start = self.peek_span().start;
        self.eat(&Token::While)?;
        let condition = Box::new(self.parse_expr_restricted()?);
        let body = Box::new(self.parse_block()?);
        let end = body.span.end;
        Ok(Expr::While { condition, body, span: Span { start, end } })
    }

    /// `loop { .. }`
    pub(crate) fn parse_loop_expr(&mut self) -> (r: Result<Expr, ParseError>)
        requires
            old(self).wf(),
        ensures
            Self::follows(final(self), old(self)),
            r is Ok ==> old(self).pos < final(self).pos,
            (old(self).cur() is Loop && old(self).ahead(1) == Some(Token::LBrace) && old(self).ahead(2) == Some(Token::RBrace))
                ==> (r matches Ok(Expr::Loop { body, .. })
                    && body.stmts@.len() == 0 && body.tail is None && final(self).pos == old(self).pos + 3),
            r matches Ok(e) ==> (e matches Expr::Loop { body, span } && old(self).cur() is Loop
                && span.start == old(self).cur_span().start && span.end == body.span.end),
        r matches Ok(e) ==> expr_tree_wf(e),
        decreases old(self).rem(), 3nat,
    {
        let start = self.peek_span().start;
        self.eat(&Token::Loop)?;
        let body = Box::new(self.parse_block()?);
        let end = body.span.end;
        Ok(Expr::Loop { body, span: Span { start, end } })
    }

    /// `for name in [&[mut]] iterable { .. }`
    pub(crate) fn parse_for_expr(&mut self) -> (r: Result<Expr, ParseError>)
        requires
            old(self).wf(),
        ensures
            Self::follows(final(self), old(self)),
            r is Ok ==> old(self).pos < final(self).pos,
            old(self).cur() is For ==> (old(self).ahead(1) matches Some(Token::Ident(x)) ==> (
                (old(self).ahead(2) == Some(Token::In) && lone_literal_at(old(self).tokens@, old(self).pos + 3)
                && old(self).ahead(4) == Some(Token::LBrace) && old(self).ahead(5) == Some(Token::RBrace))
                ==> (r matches Ok(Expr::For { binding, borrow: None, iterable, body, .. }) && binding == x
                    && *iterable == literal_expr_at(old(self).tokens@, old(self).pos + 3)
                    && body.stmts@.len() == 0 && body.tail is None && final(self).pos == old(self).pos + 6))),
            r matches Ok(e) ==> (e matches Expr::For { binding, borrow, span, .. } && old(self).cur() is For
                && old(self).ahead(1) == Some(Token::Ident(binding))
                && old(self).ahead(2) == Some(Token::In)
                && (borrow is None <==> old(self).ahead(3) != Some(Token::Amp))
                && (borrow == Some(BorrowKind::Mut) <==> (old(self).ahead(3) == Some(Token::Amp)
                    && old(self).ahead(4) == Some(Token::Mut)))
                && span.start == old(self).cur_span().start),
        r matches Ok(e) ==> expr_tree_wf(e),
        decreases old(self).rem(), 3nat,
    {
        let start = self.peek_span().start;
        self.eat(&Token::For)?;
        let (binding, binding_span) = self.eat_ident()?;
        self.eat(&Token::In)?;

        let borrow = if matches!(self.peek(), Token::Amp) {
            self.advance();
            if matches!(self.peek(), Token::Mut) {
                self.advance();
                Some(BorrowKind::Mut)
            } else {
                Some(BorrowKind::Shared)
            }
        } else {
            None
        };

        let iterable = Box::new(self.parse_expr_restricted()?);
        let body = Box::new(self.parse_block()?);
        let end = body.span.end;
        Ok(Expr::For { binding, binding_span, borrow, iterable, body, span: Span { start, end } })
    }
}

} // verus!

use vstd::prelude::*;
use crate::ast::{Expr, Literal, MatchArm, Pattern};
use crate::lexer::{Span, Token};
use crate::text::{push_char, push_str, text_is};
use super::{is_error_at, ParseError, Parser};
use super::expr::{lone_literal_at, literal_expr_at};
use crate::ast::stmt::{arm_tree_wf, expr_tree_wf};

verus! {

/// A wildcard pattern `_` at index `i`.
pub open spec fn wildcard_at(toks: Seq<(Token, Span)>, i: int) -> bool {
    0 <= i < toks.len() && (toks[i].0 matches Token::Ident(n) && n@ == "_"@)
}

impl Parser {
    /// `match subject { arm, ... }`
    pub(crate) fn parse_match_expr(&mut self) -> (r: Result<Expr, ParseError>)
        requires
            old(self).wf(),
        ensures
            Self::follows(final(self), old(self)),
            r is Ok ==> old(self).pos < final(self).pos,
            (old(self).cur() is Match && lone_literal_at(old(self).tokens@, old(self).pos + 1)
                && old(self).ahead(2) == Some(Token::LBrace) && old(self).ahead(3) == Some(Token::RBrace))
                ==> (r matches Ok(Expr::Match { subject, arms, .. })
                    && *subject == literal_expr_at(old(self).tokens@, old(self).pos + 1)
                    && arms@.len() == 0 && final(self).pos == old(self).pos + 4),
            r matches Ok(e) ==> (e matches Expr::Match { span, .. } && old(self).cur() is Match
                && span.start == old(self).cur_span().start),
        r matches Ok(e) ==> expr_tree_wf(e),
        decreases old(self).rem(), 3nat,
    {
        let start = self.peek_span().start;
        self.eat(&Token::Match)?;
        let subject = Box::new(self.parse_expr_restricted()?);
        self.eat(&Token::LBrace)?;

        let mut arms: Vec<MatchArm> = Vec::new();
        while !matches!(self.peek(), Token::RBrace | Token::Eof)
            invariant
                Self::follows(self, old(self)),
                old(self).pos < self.pos,
                expr_tree_wf(*subject),
                forall|k: int| 0 <= k < arms@.len() ==> arm_tree_wf(#[trigger] arms@[k]),
                (lone_literal_at(old(self).tokens@, old(self).pos + 1) && old(self).ahead(3) == Some(Token::RBrace)
                    && old(self).ahead(2) == Some(Token::LBrace) && old(self).cur() is Match)
                    ==> (self.pos == old(self).pos + 3 && arms@.len() == 0
                        && *subject == literal_expr_at(old(self).tokens@, old(self).pos + 1)),
            decreases self.rem(),
        {
            let arm = self.parse_match_arm()?;
            arms.push(arm);
        }

        let end = self.eat(&Token::RBrace)?.end;
        Ok(Expr::Match { subject, arms, span: Span { start, end } })
    }

    /// `[|] pattern [if guard] => body [,]` — the comma may be left out only
    /// before the closing `}`.
    fn parse_match_arm(&mut self) -> (r: Result<MatchArm, ParseError>)
        requires
            old(self).wf(),
        ensures
            Self::follows(final(self), old(self)),
            r is Ok ==> old(self).pos < final(self).pos,
            (wildcard_at(old(self).tokens@, old(self).pos as int) && old(self).ahead(1) == Some(Token::FatArrow)
                && lone_literal_at(old(self).tokens@, old(self).pos + 2)
                && (old(self).ahead(3) == Some(Token::Comma) || old(self).ahead(3) == Some(Token::RBrace)))
                ==> (r matches Ok(arm) && arm.pattern == Pattern::Wildcard(old(self).cur_span()) && arm.guard is None
                    && arm.body == literal_expr_at(old(self).tokens@, old(self).pos + 2)
                    && final(self).pos == old(self).pos + (if old(self).ahead(3) == Some(Token::Comma) { 4int } else { 3int })),
            r matches Ok(arm) ==> arm.span.start == old(self).cur_span().start,
            r matches Ok(arm) ==> arm_tree_wf(arm),
        decreases old(self).rem(), 9nat,
    {
        let start = self.peek_span().start;

        // An optional leading `|`.
        if matches!(self.peek(), Token::Pipe) {
            self.advance();
        }

        let pattern = self.parse_pattern_or()?;

        // Qualified patterns (`EnumName.Variant`) are not supported.
        if matches!(self.peek(), Token::Dot) {
            return Err(self.error_expected(
                "=> or if",
                Some("qualified patterns (EnumName.Variant) are not supported in match arms — use the bare variant name (Variant) directly; the subject type determines which enum is searched"),
            ));
        }

        let guard = if matches!(self.peek(), Token::If) {
            self.advance();
            let g = self.parse_expr_restricted()?;
            Some(Box::new(g))
        } else {
            None
        };

        self.eat(&Token::FatArrow)?;
        let body = self.parse_expr_open()?;
        let end = body.span().end;

        if !matches!(self.peek(), Token::RBrace | Token::Eof) {
            self.eat(&Token::Comma)?;
        }

        Ok(MatchArm { pattern, guard, body, span: Span { start, end } })
    }

    /// An or-pattern `A | B | C`, or a single pattern.
    fn parse_pattern_or(&mut self) -> (r: Result<Pattern, ParseError>)
        requires
            old(self).wf(),
        ensures
            Self::follows(final(self), old(self)),
            r is Ok ==> old(self).pos < final(self).pos,
            (wildcard_at(old(self).tokens@, old(self).pos as int) && old(self).ahead(1) != Some(Token::Pipe))
                ==> r == Ok::<Pattern, ParseError>(Pattern::Wildcard(old(self).cur_span())) && final(self).pos == old(self).pos + 1,
            r is Ok ==> !(final(self).cur() is Pipe),
            r matches Ok(Pattern::Or(alts, _)) ==> alts@.len() >= 2,
        decreases old(self).rem(), 2nat,
    {
        let start = self.peek_span().start;
        let first = self.parse_pattern_atom()?;

        if !matches!(self.peek(), Token::Pipe) {
            return Ok(first);
        }

        let mut end = first.span().end;
        let mut alts: Vec<Pattern> = Vec::new();
        alts.push(first);
        loop
            invariant_except_break
                self.cur() is Pipe,
                alts@.len() >= 1,
            invariant
                Self::follows(self, old(self)),
                old(self).pos < self.pos,
                !(wildcard_at(old(self).tokens@, old(self).pos as int) && old(self).ahead(1) != Some(Token::Pipe)),
            ensures
                Self::follows(self, old(self)),
                old(self).pos < self.pos,
                !(self.cur() is Pipe),
                alts@.len() >= 2,
            decreases self.rem(),
        {
            self.advance();
            let p = self.parse_pattern_atom()?;
            end = p.span().end;
            alts.push(p);
            if !matches!(self.peek(), Token::Pipe) {
                break;
            }
        }

        Ok(Pattern::Or(alts, Span { start, end }))
    }

    /// `_`, a literal (with an optional `-` before a number), a name, a
    /// constructor pattern `Name(p, ..)`, or a parenthesized pattern.
    fn parse_pattern_atom(&mut self) -> (r: Result<Pattern, ParseError>)
        requires
            old(self).wf(),
        ensures
            Self::follows(final(self), old(self)),
            r is Ok ==> old(self).pos < final(self).pos,
            r matches Ok(Pattern::Or(alts, _)) ==> alts@.len() >= 2,
            (old(self).cur() matches Token::Ident(n) && n@ == "_"@) ==>
                r == Ok::<Pattern, ParseError>(Pattern::Wildcard(old(self).cur_span())) && final(self).pos == old(self).pos + 1,
            old(self).cur() is Minus ==> (old(self).ahead(1) matches Some(Token::Integer(n)) ==>
                (r matches Ok(Pattern::Literal(Literal::Integer(v), s))
                    && v == (if n == i64::MIN { n as int } else { -n }) && s.start == old(self).cur_span().start)),
            old(self).cur() is Minus ==> (old(self).ahead(1) matches Some(Token::Float(f)) ==>
                (r matches Ok(Pattern::Literal(Literal::Float(t), s))
                    && t@ == seq!['-'] + f@ && s.start == old(self).cur_span().start)),
            old(self).cur() matches Token::Ident(n) ==> (n@ != "_"@ ==> (r matches Ok(p) ==>
                ((p matches Pattern::Name(m, _) && m == n) || (p matches Pattern::Constructor { name, .. } && name == n)))),
            !(old(self).cur() is Ident || old(self).cur() is Integer || old(self).cur() is Float
                || old(self).cur() is Minus || old(self).cur() is True || old(self).cur() is False
                || old(self).cur() is Str || old(self).cur() is Char || old(self).cur() is LParen)
                ==> (r matches Err(e) && is_error_at(old(self), e, "a pattern"@,
                    Some("patterns can be `_`, a literal, a name, or `Name(...)` for constructor patterns"@))),
        decreases old(self).rem(), 1nat,
    {
        let start = self.peek_span().start;
        let is_wild = match self.peek() {
            Token::Ident(s) => text_is(s, "_"),
            _ => false,
        };
        if is_wild {
            let span = self.advance().1;
            return Ok(Pattern::Wildcard(span));
        }
        match self.peek() {
            Token::Minus => {
                self.advance();
                match self.peek() {
                    Token::Integer(_) => {
                        let (tok, end_span) = self.advance();
                        let v: i64 = match tok {
                            Token::Integer(n) => if n == i64::MIN { n } else { -n },
                            _ => 0,
                        };
                        Ok(Pattern::Literal(Literal::Integer(v), Span { start, end: end_span.end }))
                    },
                    Token::Float(_) => {
                        let (tok, end_span) = self.advance();
                        let mut text = String::new();
                        push_char(&mut text, '-');
                        if let Token::Float(f) = tok {
                            push_str(&mut text, f.as_str());
                        }
                        Ok(Pattern::Literal(Literal::Float(text), Span { start, end: end_span.end }))
                    },
                    _ => Err(self.error_expected(
                        "a numeric literal after `-`",
                        Some("write a number after `-`, e.g. `-1` or `-2.5`"),
                    )),
                }
            },
            Token::Integer(_) | Token::Float(_) | Token::True | Token::False | Token::Str(_) | Token::Char(_) => {
                let (tok, s) = self.advance();
                let lit = match tok {
                    Token::Integer(n) => Literal::Integer(n),
                    Token::Float(f) => Literal::Float(f),
                    Token::True => Literal::Bool(true),
                    Token::False => Literal::Bool(false),
                    Token::Str(raw) => Literal::Str(raw),
                    Token::Char(c) => Literal::Char(c),
                    _ => Literal::Bool(false),
                };
                Ok(Pattern::Literal(lit, s))
            },
            Token::Ident(_) => {
                let (name, name_span) = self.eat_ident()?;
                if matches!(self.peek(), Token::LParen) {
                    self.advance();
                    let mut sub_patterns: Vec<Pattern> = Vec::new();
                    if !matches!(self.peek(), Token::RParen) {
                        loop
                            invariant
                                Self::follows(self, old(self)),
                                old(self).pos < self.pos,
                                old(self).cur() matches Token::Ident(n) && n@ != "_"@,
                            decreases self.rem(),
                        {
                            let p = self.parse_pattern_or()?;
                            sub_patterns.push(p);
                            match self.peek() {
                                Token::Comma => {
                                    self.advance();
                                },
                                Token::RParen => {
                                    break;
                                },
                                _ => {
                                    return Err(self.error_expected(
                                        "`,` or `)`",
                                        Some("add `,` to separate pattern fields or `)` to close the constructor pattern"),
                                    ));
                                },
                            }
                        }
                    }
                    let end = self.eat(&Token::RParen)?.end;
                    Ok(Pattern::Constructor { name, name_span, sub_patterns, span: Span { start, end } })
                } else {
                    Ok(Pattern::Name(name, name_span))
                }
            },
            Token::LParen => {
                self.advance();
                let pat = self.parse_pattern_or()?;
                self.eat(&Token::RParen)?;
                Ok(pat)
            },
            _ => Err(self.error_expected(
                "a pattern",
                Some("patterns can be `_`, a literal, a name, or `Name(...)` for constructor patterns"),
            )),
        }
    }
}

} // verus!

use vstd::prelude::*;
use crate::ast::{RefRegion, Type};
use crate::lexer::{Span, Token};
use crate::text::text_is;
use super::{ParseError, Parser};

verus! {

/// `< Name >` at the cursor: one named type argument (not `Self`).
pub open spec fn one_type_arg(p: &Parser) -> bool {
    p.cur() is Lt && (p.ahead(1) matches Some(Token::Ident(n)) && n@ != "Self"@) && p.ahead(2) == Some(Token::Gt)
}

impl Parser {
    /// Parses a type: `&[mut] [region] T`, `Self`, or `Name[<T, ...>]`.
    pub(crate) fn parse_type(&mut self) -> (r: Result<Type, ParseError>)
        requires
            old(self).wf(),
        ensures
            Self::follows(final(self), old(self)),
            r is Ok ==> old(self).pos < final(self).pos,
            old(self).cur() is Amp ==> (r matches Ok(t) ==> t is Ref),
            old(self).cur() matches Token::Ident(n) ==> (n@ == "Self"@ ==> r == Ok::<Type, ParseError>(Type::SelfTy(old(self).cur_span()))),
            old(self).cur() matches Token::Ident(n) ==> (n@ != "Self"@ ==> (r matches Ok(t) ==> (t matches Type::Named { name, .. } && name@ == n@))),
            !(old(self).cur() is Amp) && !(old(self).cur() is Ident) ==> r is Err,
            old(self).cur() matches Token::Ident(n) ==> ((n@ != "Self"@ && old(self).ahead(1) != Some(Token::Lt)) ==>
                (r matches Ok(Type::Named { name, args, .. }) && name == n && args@.len() == 0
                    && final(self).pos == old(self).pos + 1)),
        decreases old(self).rem(), 1nat,
    {
        let start = self.peek_span().start;
        match self.peek() {
            Token::Amp => {
                self.advance();
                let mutable = if matches!(self.peek(), Token::Mut) {
                    self.advance();
                    true
                } else {
                    false
                };
                let region = self.try_parse_region_tag();
                let inner = self.parse_type()?;
                let end = inner.span().end;
                Ok(Type::Ref { mutable, region, inner: Box::new(inner), span: Span { start, end } })
            },
            Token::Ident(_) => {
                let (name, name_span) = self.eat_ident()?;
                // Capital `Self` spelled as an identifier is the type of the enclosing impl.
                if text_is(&name, "Self") {
                    return Ok(Type::SelfTy(name_span));
                }
                let args = self.parse_type_args_opt()?;
                let end = if args.len() == 0 {
                    name_span.end
                } else {
                    self.tokens[self.pos - 1].1.end
                };
                Ok(Type::Named { name, args, span: Span { start, end } })
            },
            // Lowercase `self` is a receiver value, never a type.
            Token::SelfKw => Err(self.error_expected(
                "`Self` (capital)",
                Some("lowercase `self` is a receiver value, not a type — use `Self` to refer to the enclosing impl type (§18)"),
            )),
            _ => Err(self.error_expected(
                "a type",
                Some("valid types: `i32`, `str`, `bool`, `&T`, `Option<T>`, `Checked<T, E>`, ..."),
            )),
        }
    }

    /// Whether `tok` can begin a type.
    fn is_type_start_token(tok: &Token) -> (r: bool)
        ensures
            r == (*tok is Ident || *tok is Amp),
    {
        matches!(tok, Token::Ident(_) | Token::Amp)
    }

    /// Consumes a region tag (`&r1 str`, `&static str`) if one is present: an
    /// identifier counts as a tag only when a type starts right after it.
    fn try_parse_region_tag(&mut self) -> (r: Option<RefRegion>)
        requires
            old(self).wf(),
        ensures
            Self::follows(final(self), old(self)),
            old(self).cur() is Static ==> r == Some(RefRegion::Static) && final(self).pos == old(self).pos + 1,
            r is None ==> final(self).pos == old(self).pos,
    {
        if matches!(self.peek(), Token::Static) {
            self.advance();
            return Some(RefRegion::Static);
        }
        if matches!(self.peek(), Token::Ident(_)) {
            let next_is_type = match self.peek_at(1) {
                Some(t) => Self::is_type_start_token(t),
                None => false,
            };
            if next_is_type {
                let (tok, _) = self.advance();
                if let Token::Ident(name) = tok {
                    return Some(RefRegion::Named(name));
                }
            }
        }
        None
    }

    /// Optional `<Type, Type, ...>` — empty when absent.
    fn parse_type_args_opt(&mut self) -> (r: Result<Vec<Type>, ParseError>)
        requires
            old(self).wf(),
            old(self).pos >= 1,
        ensures
            Self::follows(final(self), old(self)),
            final(self).pos >= 1,
            !(old(self).cur() is Lt) ==> (r matches Ok(v) && v@.len() == 0 && final(self).pos == old(self).pos),
            r matches Ok(v) && v@.len() > 0 ==> old(self).pos < final(self).pos,
            old(self).cur() is Lt ==> (old(self).ahead(1) matches Some(Token::Ident(n)) ==> (
                (n@ != "Self"@ && old(self).ahead(2) == Some(Token::Gt)) ==> (r matches Ok(v) && v@.len() == 1
                    && (v@[0] matches Type::Named { name, args, .. } && name == n && args@.len() == 0)
                    && final(self).pos == old(self).pos + 3))),
            (old(self).cur() is Lt && old(self).ahead(1) == Some(Token::Gt))
                ==> (r matches Ok(v) && v@.len() == 0 && final(self).pos == old(self).pos + 2),
        decreases old(self).rem(), 1nat,
    {
        if !matches!(self.peek(), Token::Lt) {
            return Ok(Vec::new());
        }
        self.advance();
        let mut args = Vec::new();
        loop
            invariant_except_break
                one_type_arg(old(self)) ==> (self.pos == old(self).pos + 1 && args@.len() == 0),
                old(self).ahead(1) == Some(Token::Gt) ==> (self.pos == old(self).pos + 1 && args@.len() == 0),
            invariant
                Self::follows(self, old(self)),
                old(self).pos < self.pos,
                old(self).cur() is Lt,
            ensures
                Self::follows(self, old(self)),
                old(self).pos < self.pos,
                old(self).cur() is Lt,
                one_type_arg(old(self)) ==> (self.pos == old(self).pos + 3 && args@.len() == 1
                    && (args@[0] matches Type::Named { name, args: a, .. } && Token::Ident(name) == old(self).ahead(1)->0
                        && a@.len() == 0)),
                old(self).ahead(1) == Some(Token::Gt) ==> (self.pos == old(self).pos + 2 && args@.len() == 0),
            decreases self.rem(),
        {
            if matches!(self.peek(), Token::Gt) {
                self.advance();
                break;
            }
            let t = self.parse_type()?;
            args.push(t);
            match self.peek() {
                Token::Comma => {
                    self.advance();
                },
                Token::Gt => {
                    self.advance();
                    break;
                },
                _ => {
                    return Err(self.error_expected(
                        "`,` or `>`",
                        Some("add `,` to separate type arguments or `>` to close the list"),
                    ));
                },
            }
        }
        Ok(args)
    }
}

} // verus!

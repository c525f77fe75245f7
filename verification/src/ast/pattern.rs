use vstd::prelude::*;
use crate::lexer::Span;
use super::Literal;

verus! {

/// A pattern in a match arm.
#[derive(Debug, PartialEq)]
pub enum Pattern {
    /// `_`
    Wildcard(Span),
    /// Integer, float, bool, char, or string literal
    Literal(Literal, Span),
    /// Bare identifier — the type checker resolves binding vs. unit variant.
    Name(String, Span),
    /// `Name(sub_pattern, ...)` — tuple variant pattern
    Constructor { name: String, name_span: Span, sub_patterns: Vec<Pattern>, span: Span },
    /// `A | B` — or-pattern
    Or(Vec<Pattern>, Span),
}

impl Pattern {
    pub open spec fn spec_span(&self) -> Span {
        match self {
            Pattern::Wildcard(s) => *s,
            Pattern::Literal(_, s) => *s,
            Pattern::Name(_, s) => *s,
            Pattern::Constructor { span, .. } => *span,
            Pattern::Or(_, s) => *s,
        }
    }

    pub fn span(&self) -> (r: Span)
        ensures
            r == self.spec_span(),
    {
        match self {
            Pattern::Wildcard(s) => *s,
            Pattern::Literal(_, s) => *s,
            Pattern::Name(_, s) => *s,
            Pattern::Constructor { span, .. } => *span,
            Pattern::Or(_, s) => *s,
        }
    }
}

} // verus!

//! The diagnostics of the type checker.
use vstd::prelude::*;
use crate::lexer::Span;
use crate::text::{dec_text, int_text, push_str, push_usize, push_i64};
use crate::parser::error::suggestion_text;
use super::ty::{ty_debug, Ty};

verus! {

/// All type errors the checker can report. Each carries its location and,
/// where one applies, a suggestion.
#[derive(Debug, PartialEq)]
pub enum TypeError {
    Mismatch { expected: Ty, found: Ty, span: Span, suggestion: Option<String> },
    UndefinedVariable { name: String, span: Span, suggestion: Option<String> },
    UndefinedFunction { name: String, span: Span, suggestion: Option<String> },
    ArgCountMismatch { name: String, expected: usize, found: usize, span: Span, suggestion: Option<String> },
    NonBoolCondition { found: Ty, span: Span },
    BranchMismatch { then: Ty, else_: Ty, span: Span },
    ReturnMismatch { expected: Ty, found: Ty, span: Span, suggestion: Option<String> },
    /// A `move self` method called through a reference receiver.
    ConsumeViaRef { ty_name: String, method_name: String, span: Span },
    /// No method of that name on the receiver's type.
    MethodNotFound { ty_name: String, method_name: String, span: Span, suggestion: Option<String> },
    /// A bare-`self` method body both consumes and borrows `self`.
    SelfAccessAmbiguity { fn_name: String, consuming_span: Span, other_span: Span },
    DuplicateFn { name: String, first_span: Span, duplicate_span: Span },
    /// Two methods of one name across all `impl` blocks of a type.
    DuplicateMethod { ty_name: String, method_name: String, first_span: Span, duplicate_span: Span },
    DuplicateStruct { name: String, first_span: Span, duplicate_span: Span },
    UndefinedStruct { name: String, span: Span },
    DuplicateStructField { struct_name: String, field_name: String, first_span: Span, duplicate_span: Span },
    MissingStructFields { struct_name: String, missing: Vec<String>, span: Span },
    FieldNotFound { ty_name: String, field_name: String, span: Span, available: Vec<String> },
    /// Writing a field through a shared reference.
    FieldWriteViaSharedRef { ty_name: String, field_name: String, span: Span },
    /// Moving a non-Copy field out of a struct (partial moves are unsupported).
    FieldOwnNonCopy { ty_name: String, field_name: String, span: Span },
    /// Non-fatal: a construct accepted but not yet type-checked.
    Deferred { feature: String, span: Span },
    LifetimeConflict { span: Span, note: String, suggestion: Option<String> },
    UseAfterMove { name: String, use_span: Span, moved_at: Span, suggestion: Option<String> },
    BorrowConflict { span: Span, suggestion: Option<String> },
    /// An integer literal above `i32::MAX`.
    IntegerOutOfRange { value: i64, span: Span },
    /// A bare variant name declared by more than one enum.
    AmbiguousVariant { variant_name: String, defined_in: Vec<String>, span: Span },
    /// A tuple variant written without its payload.
    TupleVariantUsedAsUnit { enum_name: String, variant_name: String, span: Span },
    VariantNotFound { enum_name: String, variant_name: String, span: Span, available: Vec<String> },
    /// A unit variant written with arguments.
    UnitVariantCalledAsFunction { enum_name: String, variant_name: String, span: Span },
    VariantArgCountMismatch {
        enum_name: String,
        variant_name: String,
        expected: usize,
        found: usize,
        span: Span,
        suggestion: Option<String>,
    },
    /// A match arm after an arm that already matches everything.
    UnreachableArm { span: Span, catch_all_span: Span },
    MatchArmMismatch { first_ty: Ty, found_ty: Ty, arm_span: Span },
    /// A tuple variant named in a pattern without sub-patterns.
    TupleVariantMissingPatternPayload { enum_name: String, variant_name: String, span: Span },
    PatternVariantNotFound { enum_name: String, variant_name: String, span: Span, available: Vec<String> },
    UnitVariantInConstructorPattern { enum_name: String, variant_name: String, span: Span },
    PatternArgCountMismatch { enum_name: String, variant_name: String, expected: usize, found: usize, span: Span },
    PatternTypeMismatch { subject_ty: Ty, span: Span },
    NonExhaustiveMatch { missing: Vec<String>, span: Span },
    DuplicateEnum { name: String, first_span: Span, duplicate_span: Span },
    DuplicateVariant { enum_name: String, variant_name: String, first_span: Span, duplicate_span: Span },
}

/// Fatal errors make the checked program ill-typed; only `Deferred` is not.
pub open spec fn is_fatal_error(e: TypeError) -> bool {
    !(e is Deferred)
}

/// The items of a list separated by `, `.
pub open spec fn joined(items: Seq<String>) -> Seq<char>
    decreases items.len(),
{
    if items.len() == 0 {
        Seq::empty()
    } else if items.len() == 1 {
        items[0]@
    } else {
        joined(items.drop_last()) + ", "@ + items.last()@
    }
}

/// The diagnostic text of a type error.
pub open spec fn type_error_text(e: TypeError) -> Seq<char> {
    match e {
        TypeError::Mismatch { expected, found, span, suggestion } =>
            "type mismatch at byte "@
                + dec_text(span.start as nat)
                + ": expected "@
                + ty_debug(expected@)
                + ", found "@
                + ty_debug(found@)
                + suggestion_text(suggestion),
        TypeError::UndefinedVariable { name, span, suggestion } =>
            "undefined variable `"@
                + name@
                + "` at byte "@
                + dec_text(span.start as nat)
                + suggestion_text(suggestion),
        TypeError::UndefinedFunction { name, span, suggestion } =>
            "undefined function `"@
                + name@
                + "` at byte "@
                + dec_text(span.start as nat)
                + suggestion_text(suggestion),
        TypeError::ArgCountMismatch { name, expected, found, span, suggestion } =>
            "wrong number of arguments for `"@
                + name@
                + "` at byte "@
                + dec_text(span.start as nat)
                + ": expected "@
                + dec_text(expected as nat)
                + ", found "@
                + dec_text(found as nat)
                + suggestion_text(suggestion),
        TypeError::NonBoolCondition { found, span } =>
            "condition must be `bool`, found "@
                + ty_debug(found@)
                + " at byte "@
                + dec_text(span.start as nat)
                + "\n  suggestion: use a comparison expression to produce a `bool`"@,
        TypeError::BranchMismatch { then, else_, span } =>
            "if-else branch type mismatch at byte "@
                + dec_text(span.start as nat)
                + ": then-branch has type "@
                + ty_debug(then@)
                + ", else-branch has type "@
                + ty_debug(else_@)
                + "\n  suggestion: ensure both branches return the same type"@,
        TypeError::ReturnMismatch { expected, found, span, suggestion } =>
            "return type mismatch at byte "@
                + dec_text(span.start as nat)
                + ": expected "@
                + ty_debug(expected@)
                + ", found "@
                + ty_debug(found@)
                + suggestion_text(suggestion),
        TypeError::ConsumeViaRef { ty_name, method_name, span } =>
            "cannot call consuming method `"@
                + ty_name@
                + "::"@
                + method_name@
                + "` on a reference receiver at byte "@
                + dec_text(span.start as nat)
                + "\nnote: `"@
                + method_name@
                + "` declares `move self`, which requires ownership of `"@
                + ty_name@
                + "`, but the receiver is a reference and does not hold ownership\nsuggestion: call this method on an owned `"@
                + ty_name@
                + "` value, or change `move self` to `self` in the method signature if ownership is not required"@,
        TypeError::MethodNotFound { ty_name, method_name, span, suggestion } =>
            "method `"@
                + method_name@
                + "` not found on type `"@
                + ty_name@
                + "` at byte "@
                + dec_text(span.start as nat)
                + suggestion_text(suggestion),
        TypeError::SelfAccessAmbiguity { fn_name, consuming_span, other_span } =>
            "cannot infer access mode for `self` in `"@
                + fn_name@
                + "` — consuming use at byte "@
                + dec_text(consuming_span.start as nat)
                + " conflicts with non-consuming use at byte "@
                + dec_text(other_span.start as nat)
                + "\nnote: these requirements conflict — the method cannot simultaneously borrow and consume\nsuggestion: if consuming ownership is intended, write `move self` and restructure the body so any borrowing use precedes the move"@,
        TypeError::DuplicateFn { name, first_span, duplicate_span } =>
            "duplicate function `"@
                + name@
                + "` — first definition at byte "@
                + dec_text(first_span.start as nat)
                + ", duplicate at byte "@
                + dec_text(duplicate_span.start as nat)
                + " — rename one of the conflicting definitions"@,
        TypeError::DuplicateMethod { ty_name, method_name, first_span, duplicate_span } =>
            "duplicate method `"@
                + method_name@
                + "` on type `"@
                + ty_name@
                + "` — first definition at byte "@
                + dec_text(first_span.start as nat)
                + ", duplicate at byte "@
                + dec_text(duplicate_span.start as nat)
                + "\nnote: all `impl "@
                + ty_name@
                + "` blocks merge into one namespace; each name must be unique across all of them\nsuggestion: rename one of the conflicting definitions"@,
        TypeError::DuplicateStruct { name, first_span, duplicate_span } =>
            "duplicate struct `"@
                + name@
                + "` — first definition at byte "@
                + dec_text(first_span.start as nat)
                + ", duplicate at byte "@
                + dec_text(duplicate_span.start as nat)
                + " — rename one of the conflicting definitions"@,
        TypeError::UndefinedStruct { name, span } =>
            "unknown struct `"@
                + name@
                + "` at byte "@
                + dec_text(span.start as nat)
                + " — no struct with this name is defined\nsuggestion: check the struct name or add a `struct "@
                + name@
                + "` declaration"@,
        TypeError::DuplicateStructField { struct_name, field_name, first_span, duplicate_span } =>
            "struct `"@
                + struct_name@
                + "` initialized with duplicate field `"@
                + field_name@
                + "` at byte "@
                + dec_text(duplicate_span.start as nat)
                + " (first use at byte "@
                + dec_text(first_span.start as nat)
                + ")\nsuggestion: remove the duplicate `"@
                + field_name@
                + "` initializer"@,
        TypeError::MissingStructFields { struct_name, missing, span } =>
            "struct `"@
                + struct_name@
                + "` is missing fields at byte "@
                + dec_text(span.start as nat)
                + ": "@
                + joined(missing@)
                + "\nsuggestion: add initializers for the missing fields"@,
        TypeError::FieldNotFound { ty_name, field_name, span, available } =>
            "field `"@
                + field_name@
                + "` not found on type `"@
                + ty_name@
                + "` at byte "@
                + dec_text(span.start as nat)
                + (if available@.len() == 0 { " — type has no fields"@ } else { " — available fields: "@ + joined(available@) })
                + "\nsuggestion: check the field name against the definition of `"@
                + ty_name@
                + "`"@,
        TypeError::FieldWriteViaSharedRef { ty_name, field_name, span } =>
            "cannot assign to `"@
                + ty_name@
                + "::"@
                + field_name@
                + "` through a shared reference at byte "@
                + dec_text(span.start as nat)
                + "\nnote: the receiver is a shared borrow (`&"@
                + ty_name@
                + "`) — field mutation requires either a mutable borrow (`&mut "@
                + ty_name@
                + "`) or an owned value\nsuggestion: use a `&mut "@
                + ty_name@
                + "` receiver, or restructure so the owning binding is used directly"@,
        TypeError::FieldOwnNonCopy { ty_name, field_name, span } =>
            "cannot move `"@
                + ty_name@
                + "::"@
                + field_name@
                + "` out of a field access at byte "@
                + dec_text(span.start as nat)
                + "\nnote: moving a single field out of a struct requires tracking that the struct is partially moved, which is not implemented in this compiler phase\nsuggestion: either move the whole struct, or access `"@
                + field_name@
                + "` only by borrow"@,
        TypeError::Deferred { feature, span } =>
            "type checking not yet implemented for `"@
                + feature@
                + "` at byte "@
                + dec_text(span.start as nat)
                + " — this construct is accepted but not fully verified; avoid lowering it to code until the next compiler phase adds support"@,
        TypeError::LifetimeConflict { span, note, suggestion } =>
            "lifetime conflict at byte "@
                + dec_text(span.start as nat)
                + ": "@
                + note@
                + suggestion_text(suggestion),
        TypeError::UseAfterMove { name, use_span, moved_at, suggestion } =>
            "use of moved value `"@
                + name@
                + "` at byte "@
                + dec_text(use_span.start as nat)
                + "; value was moved at byte "@
                + dec_text(moved_at.start as nat)
                + suggestion_text(suggestion),
        TypeError::BorrowConflict { span, suggestion } =>
            "conflicting borrows at byte "@
                + dec_text(span.start as nat)
                + suggestion_text(suggestion),
        TypeError::IntegerOutOfRange { value, span } =>
            "integer literal "@
                + int_text(value as int)
                + " at byte "@
                + dec_text(span.start as nat)
                + " is out of range for `i32` (maximum 2147483647)\nsuggestion: use a smaller value"@,
        TypeError::AmbiguousVariant { variant_name, defined_in, span } =>
            "ambiguous variant `"@
                + variant_name@
                + "` at byte "@
                + dec_text(span.start as nat)
                + " — declared by enums "@
                + joined(defined_in@)
                + "\nsuggestion: qualify it as `Enum."@
                + variant_name@
                + "`"@,
        TypeError::TupleVariantUsedAsUnit { enum_name, variant_name, span } =>
            "variant `"@
                + enum_name@
                + "::"@
                + variant_name@
                + "` carries data but is used without arguments at byte "@
                + dec_text(span.start as nat)
                + "\nsuggestion: pass its payload, as in `"@
                + variant_name@
                + "(...)`"@,
        TypeError::VariantNotFound { enum_name, variant_name, span, available } =>
            "variant `"@
                + variant_name@
                + "` not found on enum `"@
                + enum_name@
                + "` at byte "@
                + dec_text(span.start as nat)
                + " — available variants: "@
                + joined(available@),
        TypeError::UnitVariantCalledAsFunction { enum_name, variant_name, span } =>
            "unit variant `"@
                + enum_name@
                + "::"@
                + variant_name@
                + "` called with arguments at byte "@
                + dec_text(span.start as nat)
                + "\nsuggestion: write `"@
                + variant_name@
                + "` without parentheses"@,
        TypeError::VariantArgCountMismatch { enum_name, variant_name, expected, found, span, suggestion } =>
            "wrong number of arguments for variant `"@
                + enum_name@
                + "::"@
                + variant_name@
                + "` at byte "@
                + dec_text(span.start as nat)
                + ": expected "@
                + dec_text(expected as nat)
                + ", found "@
                + dec_text(found as nat)
                + suggestion_text(suggestion),
        TypeError::UnreachableArm { span, catch_all_span } =>
            "unreachable match arm at byte "@
                + dec_text(span.start as nat)
                + " — the arm at byte "@
                + dec_text(catch_all_span.start as nat)
                + " already matches every value\nsuggestion: remove this arm or move it before the catch-all arm"@,
        TypeError::MatchArmMismatch { first_ty, found_ty, arm_span } =>
            "match arm type mismatch at byte "@
                + dec_text(arm_span.start as nat)
                + ": the first arm has type "@
                + ty_debug(first_ty@)
                + ", this arm has type "@
                + ty_debug(found_ty@)
                + "\nsuggestion: make every arm evaluate to the same type"@,
        TypeError::TupleVariantMissingPatternPayload { enum_name, variant_name, span } =>
            "pattern `"@
                + variant_name@
                + "` at byte "@
                + dec_text(span.start as nat)
                + " leaves out the payload of tuple variant `"@
                + enum_name@
                + "::"@
                + variant_name@
                + "`\nsuggestion: write `"@
                + variant_name@
                + "(..)` with one sub-pattern per field"@,
        TypeError::PatternVariantNotFound { enum_name, variant_name, span, available } =>
            "pattern variant `"@
                + variant_name@
                + "` at byte "@
                + dec_text(span.start as nat)
                + " is not a variant of enum `"@
                + enum_name@
                + "` — available variants: "@
                + joined(available@),
        TypeError::UnitVariantInConstructorPattern { enum_name, variant_name, span } =>
            "unit variant `"@
                + enum_name@
                + "::"@
                + variant_name@
                + "` written with a payload pattern at byte "@
                + dec_text(span.start as nat)
                + "\nsuggestion: write `"@
                + variant_name@
                + "` without parentheses"@,
        TypeError::PatternArgCountMismatch { enum_name, variant_name, expected, found, span } =>
            "pattern for `"@
                + enum_name@
                + "::"@
                + variant_name@
                + "` at byte "@
                + dec_text(span.start as nat)
                + " has "@
                + dec_text(found as nat)
                + " sub-pattern(s), but the variant has "@
                + dec_text(expected as nat)
                + " field(s)"@,
        TypeError::PatternTypeMismatch { subject_ty, span } =>
            "pattern at byte "@
                + dec_text(span.start as nat)
                + " cannot match a value of type "@
                + ty_debug(subject_ty@),
        TypeError::NonExhaustiveMatch { missing, span } =>
            "non-exhaustive match at byte "@
                + dec_text(span.start as nat)
                + ": missing "@
                + joined(missing@)
                + "\nsuggestion: add arms for the missing cases, or a `_` arm"@,
        TypeError::DuplicateEnum { name, first_span, duplicate_span } =>
            "duplicate enum `"@
                + name@
                + "` — first definition at byte "@
                + dec_text(first_span.start as nat)
                + ", duplicate at byte "@
                + dec_text(duplicate_span.start as nat)
                + " — rename one of the conflicting definitions"@,
        TypeError::DuplicateVariant { enum_name, variant_name, first_span, duplicate_span } =>
            "duplicate variant `"@
                + variant_name@
                + "` in enum `"@
                + enum_name@
                + "` — first definition at byte "@
                + dec_text(first_span.start as nat)
                + ", duplicate at byte "@
                + dec_text(duplicate_span.start as nat)
                + " — rename one of the conflicting variants"@,
    }
}

fn push_suggestion(s: &mut String, suggestion: &Option<String>)
    ensures
        final(s)@ == old(s)@ + suggestion_text(*suggestion),
{
    match suggestion {
        Some(t) => {
            push_str(s, " — ");
            push_str(s, t.as_str());
        },
        None => {},
    }
}

fn push_list(s: &mut String, items: &Vec<String>)
    ensures
        final(s)@ == old(s)@ + joined(items@),
{
    let mut i: usize = 0;
    assert(items@.take(0) =~= Seq::<String>::empty());
    assert(s@ =~= old(s)@ + joined(items@.take(0)));
    while i < items.len()
        invariant
            i <= items@.len(),
            s@ == old(s)@ + joined(items@.take(i as int)),
        decreases items@.len() - i,
    {
        let ghost before = s@;
        if i > 0 {
            push_str(s, ", ");
        }
        push_str(s, items[i].as_str());
        proof {
            let t = items@.take(i + 1);
            assert(t.drop_last() =~= items@.take(i as int));
            assert(t.last() == items@[i as int]);
            if i == 0 {
                assert(joined(t) == items@[0]@);
                assert(joined(items@.take(0)) =~= Seq::<char>::empty());
            }
            assert(s@ =~= old(s)@ + joined(t));
        }
        i = i + 1;
    }
    assert(items@.take(items@.len() as int) =~= items@);
}

fn push_span(s: &mut String, span: &Span)
    ensures
        final(s)@ == old(s)@ + dec_text(span.start as nat),
{
    push_usize(s, span.start);
}

impl TypeError {
    /// True for errors that make the program ill-typed; `Deferred` is not.
    pub fn is_fatal(&self) -> (r: bool)
        ensures
            r == is_fatal_error(*self),
    {
        !matches!(self, TypeError::Deferred { .. })
    }

    /// The human-readable diagnostic for this error.
    pub fn message(&self) -> (r: String)
        ensures
            r@ == type_error_text(*self),
    {
        let mut s = String::new();
        match self {
            TypeError::Mismatch { expected, found, span, suggestion } => {
                push_str(&mut s, "type mismatch at byte ");
                push_span(&mut s, span);
                push_str(&mut s, ": expected ");
                expected.push_debug(&mut s);
                push_str(&mut s, ", found ");
                found.push_debug(&mut s);
                push_suggestion(&mut s, suggestion);
            },
            TypeError::UndefinedVariable { name, span, suggestion } => {
                push_str(&mut s, "undefined variable `");
                push_str(&mut s, name.as_str());
                push_str(&mut s, "` at byte ");
                push_span(&mut s, span);
                push_suggestion(&mut s, suggestion);
            },
            TypeError::UndefinedFunction { name, span, suggestion } => {
                push_str(&mut s, "undefined function `");
                push_str(&mut s, name.as_str());
                push_str(&mut s, "` at byte ");
                push_span(&mut s, span);
                push_suggestion(&mut s, suggestion);
            },
            TypeError::ArgCountMismatch { name, expected, found, span, suggestion } => {
                push_str(&mut s, "wrong number of arguments for `");
                push_str(&mut s, name.as_str());
                push_str(&mut s, "` at byte ");
                push_span(&mut s, span);
                push_str(&mut s, ": expected ");
                push_usize(&mut s, *expected);
                push_str(&mut s, ", found ");
                push_usize(&mut s, *found);
                push_suggestion(&mut s, suggestion);
            },
            TypeError::NonBoolCondition { found, span } => {
                push_str(&mut s, "condition must be `bool`, found ");
                found.push_debug(&mut s);
                push_str(&mut s, " at byte ");
                push_span(&mut s, span);
                push_str(&mut s, "\n  suggestion: use a comparison expression to produce a `bool`");
            },
            TypeError::BranchMismatch { then, else_, span } => {
                push_str(&mut s, "if-else branch type mismatch at byte ");
                push_span(&mut s, span);
                push_str(&mut s, ": then-branch has type ");
                then.push_debug(&mut s);
                push_str(&mut s, ", else-branch has type ");
                else_.push_debug(&mut s);
                push_str(&mut s, "\n  suggestion: ensure both branches return the same type");
            },
            TypeError::ReturnMismatch { expected, found, span, suggestion } => {
                push_str(&mut s, "return type mismatch at byte ");
                push_span(&mut s, span);
                push_str(&mut s, ": expected ");
                expected.push_debug(&mut s);
                push_str(&mut s, ", found ");
                found.push_debug(&mut s);
                push_suggestion(&mut s, suggestion);
            },
            TypeError::ConsumeViaRef { ty_name, method_name, span } => {
                push_str(&mut s, "cannot call consuming method `");
                push_str(&mut s, ty_name.as_str());
                push_str(&mut s, "::");
                push_str(&mut s, method_name.as_str());
                push_str(&mut s, "` on a reference receiver at byte ");
                push_span(&mut s, span);
                push_str(&mut s, "\nnote: `");
                push_str(&mut s, method_name.as_str());
                push_str(&mut s, "` declares `move self`, which requires ownership of `");
                push_str(&mut s, ty_name.as_str());
                push_str(&mut s, "`, but the receiver is a reference and does not hold ownership\nsuggestion: call this method on an owned `");
                push_str(&mut s, ty_name.as_str());
                push_str(&mut s, "` value, or change `move self` to `self` in the method signature if ownership is not required");
            },
            TypeError::MethodNotFound { ty_name, method_name, span, suggestion } => {
                push_str(&mut s, "method `");
                push_str(&mut s, method_name.as_str());
                push_str(&mut s, "` not found on type `");
                push_str(&mut s, ty_name.as_str());
                push_str(&mut s, "` at byte ");
                push_span(&mut s, span);
                push_suggestion(&mut s, suggestion);
            },
            TypeError::SelfAccessAmbiguity { fn_name, consuming_span, other_span } => {
                push_str(&mut s, "cannot infer access mode for `self` in `");
                push_str(&mut s, fn_name.as_str());
                push_str(&mut s, "` — consuming use at byte ");
                push_span(&mut s, consuming_span);
                push_str(&mut s, " conflicts with non-consuming use at byte ");
                push_span(&mut s, other_span);
                push_str(&mut s, "\nnote: these requirements conflict — the method cannot simultaneously borrow and consume\nsuggestion: if consuming ownership is intended, write `move self` and restructure the body so any borrowing use precedes the move");
            },
            TypeError::DuplicateFn { name, first_span, duplicate_span } => {
                push_str(&mut s, "duplicate function `");
                push_str(&mut s, name.as_str());
                push_str(&mut s, "` — first definition at byte ");
                push_span(&mut s, first_span);
                push_str(&mut s, ", duplicate at byte ");
                push_span(&mut s, duplicate_span);
                push_str(&mut s, " — rename one of the conflicting definitions");
            },
            TypeError::DuplicateMethod { ty_name, method_name, first_span, duplicate_span } => {
                push_str(&mut s, "duplicate method `");
                push_str(&mut s, method_name.as_str());
                push_str(&mut s, "` on type `");
                push_str(&mut s, ty_name.as_str());
                push_str(&mut s, "` — first definition at byte ");
                push_span(&mut s, first_span);
                push_str(&mut s, ", duplicate at byte ");
                push_span(&mut s, duplicate_span);
                push_str(&mut s, "\nnote: all `impl ");
                push_str(&mut s, ty_name.as_str());
                push_str(&mut s, "` blocks merge into one namespace; each name must be unique across all of them\nsuggestion: rename one of the conflicting definitions");
            },
            TypeError::DuplicateStruct { name, first_span, duplicate_span } => {
                push_str(&mut s, "duplicate struct `");
                push_str(&mut s, name.as_str());
                push_str(&mut s, "` — first definition at byte ");
                push_span(&mut s, first_span);
                push_str(&mut s, ", duplicate at byte ");
                push_span(&mut s, duplicate_span);
                push_str(&mut s, " — rename one of the conflicting definitions");
            },
            TypeError::UndefinedStruct { name, span } => {
                push_str(&mut s, "unknown struct `");
                push_str(&mut s, name.as_str());
                push_str(&mut s, "` at byte ");
                push_span(&mut s, span);
                push_str(&mut s, " — no struct with this name is defined\nsuggestion: check the struct name or add a `struct ");
                push_str(&mut s, name.as_str());
                push_str(&mut s, "` declaration");
            },
            TypeError::DuplicateStructField { struct_name, field_name, first_span, duplicate_span } => {
                push_str(&mut s, "struct `");
                push_str(&mut s, struct_name.as_str());
                push_str(&mut s, "` initialized with duplicate field `");
                push_str(&mut s, field_name.as_str());
                push_str(&mut s, "` at byte ");
                push_span(&mut s, duplicate_span);
                push_str(&mut s, " (first use at byte ");
                push_span(&mut s, first_span);
                push_str(&mut s, ")\nsuggestion: remove the duplicate `");
                push_str(&mut s, field_name.as_str());
                push_str(&mut s, "` initializer");
            },
            TypeError::MissingStructFields { struct_name, missing, span } => {
                push_str(&mut s, "struct `");
                push_str(&mut s, struct_name.as_str());
                push_str(&mut s, "` is missing fields at byte ");
                push_span(&mut s, span);
                push_str(&mut s, ": ");
                push_list(&mut s, missing);
                push_str(&mut s, "\nsuggestion: add initializers for the missing fields");
            },
            TypeError::FieldNotFound { ty_name, field_name, span, available } => {
                push_str(&mut s, "field `");
                push_str(&mut s, field_name.as_str());
                push_str(&mut s, "` not found on type `");
                push_str(&mut s, ty_name.as_str());
                push_str(&mut s, "` at byte ");
                push_span(&mut s, span);
                if available.len() == 0 {
                    push_str(&mut s, " — type has no fields");
                } else {
                    push_str(&mut s, " — available fields: ");
                    push_list(&mut s, available);
                }
                push_str(&mut s, "\nsuggestion: check the field name against the definition of `");
                push_str(&mut s, ty_name.as_str());
                push_str(&mut s, "`");
            },
            TypeError::FieldWriteViaSharedRef { ty_name, field_name, span } => {
                push_str(&mut s, "cannot assign to `");
                push_str(&mut s, ty_name.as_str());
                push_str(&mut s, "::");
                push_str(&mut s, field_name.as_str());
                push_str(&mut s, "` through a shared reference at byte ");
                push_span(&mut s, span);
                push_str(&mut s, "\nnote: the receiver is a shared borrow (`&");
                push_str(&mut s, ty_name.as_str());
                push_str(&mut s, "`) — field mutation requires either a mutable borrow (`&mut ");
                push_str(&mut s, ty_name.as_str());
                push_str(&mut s, "`) or an owned value\nsuggestion: use a `&mut ");
                push_str(&mut s, ty_name.as_str());
                push_str(&mut s, "` receiver, or restructure so the owning binding is used directly");
            },
            TypeError::FieldOwnNonCopy { ty_name, field_name, span } => {
                push_str(&mut s, "cannot move `");
                push_str(&mut s, ty_name.as_str());
                push_str(&mut s, "::");
                push_str(&mut s, field_name.as_str());
                push_str(&mut s, "` out of a field access at byte ");
                push_span(&mut s, span);
                push_str(&mut s, "\nnote: moving a single field out of a struct requires tracking that the struct is partially moved, which is not implemented in this compiler phase\nsuggestion: either move the whole struct, or access `");
                push_str(&mut s, field_name.as_str());
                push_str(&mut s, "` only by borrow");
            },
            TypeError::Deferred { feature, span } => {
                push_str(&mut s, "type checking not yet implemented for `");
                push_str(&mut s, feature.as_str());
                push_str(&mut s, "` at byte ");
                push_span(&mut s, span);
                push_str(&mut s, " — this construct is accepted but not fully verified; avoid lowering it to code until the next compiler phase adds support");
            },
            TypeError::LifetimeConflict { span, note, suggestion } => {
                push_str(&mut s, "lifetime conflict at byte ");
                push_span(&mut s, span);
                push_str(&mut s, ": ");
                push_str(&mut s, note.as_str());
                push_suggestion(&mut s, suggestion);
            },
            TypeError::UseAfterMove { name, use_span, moved_at, suggestion } => {
                push_str(&mut s, "use of moved value `");
                push_str(&mut s, name.as_str());
                push_str(&mut s, "` at byte ");
                push_span(&mut s, use_span);
                push_str(&mut s, "; value was moved at byte ");
                push_span(&mut s, moved_at);
                push_suggestion(&mut s, suggestion);
            },
            TypeError::BorrowConflict { span, suggestion } => {
                push_str(&mut s, "conflicting borrows at byte ");
                push_span(&mut s, span);
                push_suggestion(&mut s, suggestion);
            },
            TypeError::IntegerOutOfRange { value, span } => {
                push_str(&mut s, "integer literal ");
                push_i64(&mut s, *value);
                push_str(&mut s, " at byte ");
                push_span(&mut s, span);
                push_str(&mut s, " is out of range for `i32` (maximum 2147483647)\nsuggestion: use a smaller value");
            },
            TypeError::AmbiguousVariant { variant_name, defined_in, span } => {
                push_str(&mut s, "ambiguous variant `");
                push_str(&mut s, variant_name.as_str());
                push_str(&mut s, "` at byte ");
                push_span(&mut s, span);
                push_str(&mut s, " — declared by enums ");
                push_list(&mut s, defined_in);
                push_str(&mut s, "\nsuggestion: qualify it as `Enum.");
                push_str(&mut s, variant_name.as_str());
                push_str(&mut s, "`");
            },
            TypeError::TupleVariantUsedAsUnit { enum_name, variant_name, span } => {
                push_str(&mut s, "variant `");
                push_str(&mut s, enum_name.as_str());
                push_str(&mut s, "::");
                push_str(&mut s, variant_name.as_str());
                push_str(&mut s, "` carries data but is used without arguments at byte ");
                push_span(&mut s, span);
                push_str(&mut s, "\nsuggestion: pass its payload, as in `");
                push_str(&mut s, variant_name.as_str());
                push_str(&mut s, "(...)`");
            },
            TypeError::VariantNotFound { enum_name, variant_name, span, available } => {
                push_str(&mut s, "variant `");
                push_str(&mut s, variant_name.as_str());
                push_str(&mut s, "` not found on enum `");
                push_str(&mut s, enum_name.as_str());
                push_str(&mut s, "` at byte ");
                push_span(&mut s, span);
                push_str(&mut s, " — available variants: ");
                push_list(&mut s, available);
            },
            TypeError::UnitVariantCalledAsFunction { enum_name, variant_name, span } => {
                push_str(&mut s, "unit variant `");
                push_str(&mut s, enum_name.as_str());
                push_str(&mut s, "::");
                push_str(&mut s, variant_name.as_str());
                push_str(&mut s, "` called with arguments at byte ");
                push_span(&mut s, span);
                push_str(&mut s, "\nsuggestion: write `");
                push_str(&mut s, variant_name.as_str());
                push_str(&mut s, "` without parentheses");
            },
            TypeError::VariantArgCountMismatch { enum_name, variant_name, expected, found, span, suggestion } => {
                push_str(&mut s, "wrong number of arguments for variant `");
                push_str(&mut s, enum_name.as_str());
                push_str(&mut s, "::");
                push_str(&mut s, variant_name.as_str());
                push_str(&mut s, "` at byte ");
                push_span(&mut s, span);
                push_str(&mut s, ": expected ");
                push_usize(&mut s, *expected);
                push_str(&mut s, ", found ");
                push_usize(&mut s, *found);
                push_suggestion(&mut s, suggestion);
            },
            TypeError::UnreachableArm { span, catch_all_span } => {
                push_str(&mut s, "unreachable match arm at byte ");
                push_span(&mut s, span);
                push_str(&mut s, " — the arm at byte ");
                push_span(&mut s, catch_all_span);
                push_str(&mut s, " already matches every value\nsuggestion: remove this arm or move it before the catch-all arm");
            },
            TypeError::MatchArmMismatch { first_ty, found_ty, arm_span } => {
                push_str(&mut s, "match arm type mismatch at byte ");
                push_span(&mut s, arm_span);
                push_str(&mut s, ": the first arm has type ");
                first_ty.push_debug(&mut s);
                push_str(&mut s, ", this arm has type ");
                found_ty.push_debug(&mut s);
                push_str(&mut s, "\nsuggestion: make every arm evaluate to the same type");
            },
            TypeError::TupleVariantMissingPatternPayload { enum_name, variant_name, span } => {
                push_str(&mut s, "pattern `");
                push_str(&mut s, variant_name.as_str());
                push_str(&mut s, "` at byte ");
                push_span(&mut s, span);
                push_str(&mut s, " leaves out the payload of tuple variant `");
                push_str(&mut s, enum_name.as_str());
                push_str(&mut s, "::");
                push_str(&mut s, variant_name.as_str());
                push_str(&mut s, "`\nsuggestion: write `");
                push_str(&mut s, variant_name.as_str());
                push_str(&mut s, "(..)` with one sub-pattern per field");
            },
            TypeError::PatternVariantNotFound { enum_name, variant_name, span, available } => {
                push_str(&mut s, "pattern variant `");
                push_str(&mut s, variant_name.as_str());
                push_str(&mut s, "` at byte ");
                push_span(&mut s, span);
                push_str(&mut s, " is not a variant of enum `");
                push_str(&mut s, enum_name.as_str());
                push_str(&mut s, "` — available variants: ");
                push_list(&mut s, available);
            },
            TypeError::UnitVariantInConstructorPattern { enum_name, variant_name, span } => {
                push_str(&mut s, "unit variant `");
                push_str(&mut s, enum_name.as_str());
                push_str(&mut s, "::");
                push_str(&mut s, variant_name.as_str());
                push_str(&mut s, "` written with a payload pattern at byte ");
                push_span(&mut s, span);
                push_str(&mut s, "\nsuggestion: write `");
                push_str(&mut s, variant_name.as_str());
                push_str(&mut s, "` without parentheses");
            },
            TypeError::PatternArgCountMismatch { enum_name, variant_name, expected, found, span } => {
                push_str(&mut s, "pattern for `");
                push_str(&mut s, enum_name.as_str());
                push_str(&mut s, "::");
                push_str(&mut s, variant_name.as_str());
                push_str(&mut s, "` at byte ");
                push_span(&mut s, span);
                push_str(&mut s, " has ");
                push_usize(&mut s, *found);
                push_str(&mut s, " sub-pattern(s), but the variant has ");
                push_usize(&mut s, *expected);
                push_str(&mut s, " field(s)");
            },
            TypeError::PatternTypeMismatch { subject_ty, span } => {
                push_str(&mut s, "pattern at byte ");
                push_span(&mut s, span);
                push_str(&mut s, " cannot match a value of type ");
                subject_ty.push_debug(&mut s);
            },
            TypeError::NonExhaustiveMatch { missing, span } => {
                push_str(&mut s, "non-exhaustive match at byte ");
                push_span(&mut s, span);
                push_str(&mut s, ": missing ");
                push_list(&mut s, missing);
                push_str(&mut s, "\nsuggestion: add arms for the missing cases, or a `_` arm");
            },
            TypeError::DuplicateEnum { name, first_span, duplicate_span } => {
                push_str(&mut s, "duplicate enum `");
                push_str(&mut s, name.as_str());
                push_str(&mut s, "` — first definition at byte ");
                push_span(&mut s, first_span);
                push_str(&mut s, ", duplicate at byte ");
                push_span(&mut s, duplicate_span);
                push_str(&mut s, " — rename one of the conflicting definitions");
            },
            TypeError::DuplicateVariant { enum_name, variant_name, first_span, duplicate_span } => {
                push_str(&mut s, "duplicate variant `");
                push_str(&mut s, variant_name.as_str());
                push_str(&mut s, "` in enum `");
                push_str(&mut s, enum_name.as_str());
                push_str(&mut s, "` — first definition at byte ");
                push_span(&mut s, first_span);
                push_str(&mut s, ", duplicate at byte ");
                push_span(&mut s, duplicate_span);
                push_str(&mut s, " — rename one of the conflicting variants");
            },
        }
        s
    }
}

} // verus!

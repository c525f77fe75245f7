use ofan::lexer::Lexer;
use ofan::parser::Parser;
use ofan::typechecker::{self, TypeError};

fn type_errors(src: &str) -> Vec<TypeError> {
    let tokens = Lexer::new(src).lex().expect("lex failed");
    let ast = Parser::new(tokens).parse().expect("parse failed");
    match typechecker::infer(&ast) {
        Err(errs) => errs,
        Ok(_) => panic!("expected type errors but typechecker returned Ok"),
    }
}

// ── FieldNotFound ─────────────────────────────────────────────────────────────

#[test]
fn diag_field_not_found_with_available() {
    let errors = type_errors("struct Point { x: f64, y: f64 } fn f(p: Point) -> f64 { p.z }");
    assert_eq!(
        errors[0].message(),
        "field `z` not found on type `Point` at byte 58 — available fields: x, y\n\
         suggestion: check the field name against the definition of `Point`"
    );
}

#[test]
fn diag_field_not_found_type_has_no_fields() {
    let errors = type_errors("struct Empty {} fn f(e: Empty) -> i32 { e.x }");
    assert_eq!(
        errors[0].message(),
        "field `x` not found on type `Empty` at byte 42 — type has no fields\n\
         suggestion: check the field name against the definition of `Empty`"
    );
}

// ── MissingStructFields ───────────────────────────────────────────────────────

#[test]
fn diag_missing_struct_fields() {
    let errors = type_errors("struct Point { x: f64, y: f64 } fn f() { let _ = Point { x = 1.0 }; }");
    assert_eq!(
        errors[0].message(),
        "struct `Point` is missing fields at byte 49: y\nsuggestion: add initializers for the missing fields"
    );
}

// ── MethodNotFound ────────────────────────────────────────────────────────────

#[test]
fn diag_method_not_found_sorted_available() {
    let errors = type_errors("impl Foo { fn zebra(self) {} fn alpha(self) {} fn bad(self) { self.missing(); } }");
    assert_eq!(
        errors[0].message(),
        "method `missing` not found on type `Foo` at byte 67 — type `Foo` has methods: alpha, bad, zebra"
    );
}

// ── SelfAccessAmbiguity ───────────────────────────────────────────────────────

#[test]
fn diag_self_access_ambiguity() {
    let errors = type_errors(
        "fn take(x: Foo) {} impl Foo { fn peek(self) {} fn bad(self) { take(self); self.peek(); } }",
    );
    let e = errors
        .iter()
        .find(|e| matches!(e, TypeError::SelfAccessAmbiguity { .. }))
        .expect("SelfAccessAmbiguity not in error list");
    assert_eq!(
        e.message(),
        "cannot infer access mode for `self` in `bad` — consuming use at byte 67 conflicts with non-consuming use at byte 74\n\
         note: these requirements conflict — the method cannot simultaneously borrow and consume\n\
         suggestion: if consuming ownership is intended, write `move self` and restructure the body so any borrowing use precedes the move"
    );
}

// ── ConsumeViaRef ─────────────────────────────────────────────────────────────

#[test]
fn diag_consume_via_ref() {
    let errors = type_errors("impl Foo { fn consume(move self) {} fn caller(self) { self.consume(); } }");
    assert_eq!(
        errors[0].message(),
        "cannot call consuming method `Foo::consume` on a reference receiver at byte 54\n\
         note: `consume` declares `move self`, which requires ownership of `Foo`, but the receiver is a reference and does not hold ownership\n\
         suggestion: call this method on an owned `Foo` value, or change `move self` to `self` in the method signature if ownership is not required"
    );
}

// ── DuplicateMethod ───────────────────────────────────────────────────────────

#[test]
fn diag_duplicate_method() {
    let errors = type_errors("impl Foo { fn bar(self) {} } impl Foo { fn bar(self) {} }");
    assert_eq!(
        errors[0].message(),
        "duplicate method `bar` on type `Foo` — first definition at byte 14, duplicate at byte 43\n\
         note: all `impl Foo` blocks merge into one namespace; each name must be unique across all of them\n\
         suggestion: rename one of the conflicting definitions"
    );
}

// ── DuplicateFn ──────────────────────────────────────────────────────────────

#[test]
fn diag_duplicate_fn() {
    let errors = type_errors("fn foo() {} fn foo() {}");
    assert_eq!(
        errors[0].message(),
        "duplicate function `foo` — first definition at byte 3, duplicate at byte 15 — rename one of the conflicting definitions"
    );
}

// ── Mismatch ─────────────────────────────────────────────────────────────────

#[test]
fn diag_mismatch_let_annotation() {
    let errors = type_errors("fn bad() { let x: bool = 5; let _ = x; }");
    assert_eq!(
        errors[0].message(),
        "type mismatch at byte 11: expected Bool, found I32 — variable `x` is annotated as `Bool` but the initializer has type `I32` — change the annotation or the initializer"
    );
}

// ── FieldWriteViaSharedRef ────────────────────────────────────────────────────

#[test]
fn diag_field_write_via_shared_ref() {
    let errors = type_errors("struct Point { x: f64 } fn f(r: &Point) { r.x = 1.0; }");
    assert_eq!(
        errors[0].message(),
        "cannot assign to `Point::x` through a shared reference at byte 42\n\
         note: the receiver is a shared borrow (`&Point`) — field mutation requires either a mutable borrow (`&mut Point`) or an owned value\n\
         suggestion: use a `&mut Point` receiver, or restructure so the owning binding is used directly"
    );
}

// ── IntegerOutOfRange ─────────────────────────────────────────────────────────

#[test]
fn diag_integer_out_of_range() {
    let errors = type_errors("fn f() -> i32 { let x = 9999999999; x }");
    assert_eq!(
        errors[0].message(),
        "integer literal 9999999999 at byte 24 is out of range for `i32` (maximum 2147483647)\nsuggestion: use a smaller value"
    );
}

#[test]
fn diag_integer_out_of_range_neg() {
    let errors = type_errors("fn f() -> i32 { -2147483649 }");
    assert_eq!(
        errors[0].message(),
        "integer literal 2147483649 at byte 17 is out of range for `i32` (maximum 2147483647)\nsuggestion: use a smaller value"
    );
}

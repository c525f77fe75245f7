use ofan::ast::Item;
use ofan::lexer::Lexer;
use ofan::parser::{parse_expr, Parser};
use ofan::typechecker::{self, InferResult, Ty, TypeError};

/// Parses a program and runs inference. Returns the inferred type of the
/// tail expression of the first function's body (unit without a tail).
fn check_fn(src: &str) -> Result<Ty, Vec<TypeError>> {
    let tokens = Lexer::new(src).lex().expect("lex failed in test");
    let ast = Parser::new(tokens).parse().expect("parse failed in test");
    let result = typechecker::infer(&ast)?;
    let Item::Function(f) = &ast.items[0] else { panic!("first item must be a function") };
    let tail_span = f.body.tail.as_ref().map(|e| e.span()).unwrap_or(f.body.span);
    Ok(result.type_of(tail_span).map(|t| t.dup()).unwrap_or(Ty::Unit))
}

/// Parses and infers; returns all fatal errors (ignores deferred ones).
fn check_fn_errors(src: &str) -> Vec<TypeError> {
    let tokens = Lexer::new(src).lex().expect("lex failed in test");
    let ast = Parser::new(tokens).parse().expect("parse failed in test");
    match typechecker::infer(&ast) {
        Ok(_) => vec![],
        Err(errs) => errs.into_iter().filter(|e| e.is_fatal()).collect(),
    }
}

fn infer_impl(src: &str) -> Result<InferResult, Vec<TypeError>> {
    let tokens = Lexer::new(src).lex().expect("lex failed in test");
    let ast = Parser::new(tokens).parse().expect("parse failed in test");
    typechecker::infer(&ast)
}

fn infer_impl_errors(src: &str) -> Vec<TypeError> {
    match infer_impl(src) {
        Ok(_) => vec![],
        Err(e) => e,
    }
}

fn infer_program(src: &str) -> Result<InferResult, Vec<TypeError>> {
    let tokens = Lexer::new(src).lex().expect("lex failed");
    let ast = Parser::new(tokens).parse().expect("parse failed");
    typechecker::infer(&ast)
}

fn infer_program_errors(src: &str) -> Vec<TypeError> {
    match infer_program(src) {
        Ok(_) => vec![],
        Err(e) => e,
    }
}

// ── Correct programs ──────────────────────────────────────────────────────

#[test]
fn mod_infer_void_fn() {
    assert_eq!(check_fn("fn greet() { }").unwrap(), Ty::Unit);
}

#[test]
fn mod_infer_i32_literal_return() {
    assert_eq!(check_fn("fn answer() -> i32 { 42 }").unwrap(), Ty::I32);
}

#[test]
fn explicit_return_satisfies_declared_return_type() {
    // `fn main() -> i32 { return 42; }` — block has no tail, but the explicit
    // `return 42` satisfies the declared return type. Must not fire ReturnMismatch.
    assert!(check_fn_errors("fn main() -> i32 { return 42; }").is_empty());
    // Same for methods: `fn add(a: i32, b: i32) -> i32 { return a; }`
    assert!(check_fn_errors("fn add(a: i32, b: i32) -> i32 { return a; }").is_empty());
}

#[test]
fn mod_infer_f64_literal_return() {
    assert_eq!(check_fn("fn pi() -> f64 { 3.14 }").unwrap(), Ty::F64);
}

#[test]
fn mod_infer_bool_literal_return() {
    assert_eq!(check_fn("fn yes() -> bool { true }").unwrap(), Ty::Bool);
}

#[test]
fn mod_infer_param_passthrough() {
    assert_eq!(check_fn("fn id(x: bool) -> bool { x }").unwrap(), Ty::Bool);
}

#[test]
fn mod_infer_binary_arithmetic() {
    assert_eq!(check_fn("fn double(n: i32) -> i32 { n * 2 }").unwrap(), Ty::I32);
}

#[test]
fn mod_infer_comparison_returns_bool() {
    assert_eq!(check_fn("fn gt(a: i32, b: i32) -> bool { a > b }").unwrap(), Ty::Bool);
}

#[test]
fn mod_infer_logical_returns_bool() {
    assert_eq!(
        check_fn("fn both(a: bool, b: bool) -> bool { a && b }").unwrap(),
        Ty::Bool
    );
}

#[test]
fn mod_infer_unary_neg() {
    assert_eq!(check_fn("fn neg(x: i32) -> i32 { -x }").unwrap(), Ty::I32);
}

#[test]
fn mod_infer_unary_not() {
    assert_eq!(check_fn("fn inv(b: bool) -> bool { !b }").unwrap(), Ty::Bool);
}

#[test]
fn mod_infer_let_binding_with_annotation() {
    assert_eq!(
        check_fn("fn seq() -> i32 { let x: i32 = 5; x }").unwrap(),
        Ty::I32
    );
}

#[test]
fn mod_infer_let_binding_inferred() {
    assert_eq!(
        check_fn("fn seq() -> i32 { let x = 5; x }").unwrap(),
        Ty::I32
    );
}

#[test]
fn mod_infer_if_expression() {
    assert_eq!(
        check_fn("fn branch(b: bool) -> i32 { if b { 1 } else { 2 } }").unwrap(),
        Ty::I32
    );
}

#[test]
fn mod_infer_if_no_else_is_unit() {
    assert_eq!(
        check_fn("fn maybe(b: bool) { if b { let _x: i32 = 1; } }").unwrap(),
        Ty::Unit
    );
}

#[test]
fn mod_infer_free_function_call() {
    let src = "fn double(n: i32) -> i32 { n * 2 } fn quad(n: i32) -> i32 { double(double(n)) }";
    let tokens = Lexer::new(src).lex().expect("lex failed");
    let ast = Parser::new(tokens).parse().expect("parse failed");
    assert!(typechecker::infer(&ast).is_ok());
}

#[test]
fn mod_infer_while_is_unit() {
    assert_eq!(
        check_fn("fn count(n: i32) { let mut x: i32 = 0; while x < n { x = x + 1; } }").unwrap(),
        Ty::Unit
    );
}

// ── Type errors ───────────────────────────────────────────────────────────

#[test]
fn mod_error_return_mismatch() {
    let errs = check_fn_errors("fn bad() -> i32 { true }");
    assert!(!errs.is_empty());
    assert!(matches!(
        errs[0],
        TypeError::ReturnMismatch { expected: Ty::I32, found: Ty::Bool, .. }
    ));
}

#[test]
fn mod_error_undefined_variable() {
    let errs = check_fn_errors("fn bad() -> i32 { missing }");
    assert!(!errs.is_empty());
    assert!(matches!(errs[0], TypeError::UndefinedVariable { .. }));
}

#[test]
fn mod_error_let_annotation_mismatch() {
    let errs = check_fn_errors("fn bad() -> i32 { let x: bool = 5; x }");
    assert!(!errs.is_empty());
    assert!(matches!(
        errs[0],
        TypeError::Mismatch { expected: Ty::Bool, found: Ty::I32, .. }
    ));
}

#[test]
fn mod_error_non_bool_condition() {
    let errs = check_fn_errors("fn bad(n: i32) -> i32 { if n { 1 } else { 2 } }");
    assert!(!errs.is_empty());
    assert!(matches!(errs[0], TypeError::NonBoolCondition { found: Ty::I32, .. }));
}

#[test]
fn mod_error_branch_type_mismatch() {
    let errs = check_fn_errors(
        "fn bad(b: bool) -> i32 { if b { 1 } else { true } }",
    );
    assert!(!errs.is_empty());
    assert!(matches!(errs[0], TypeError::BranchMismatch { .. }));
}

#[test]
fn mod_error_arg_count_mismatch() {
    let errs = check_fn_errors(
        "fn double(n: i32) -> i32 { n * 2 } fn bad() -> i32 { double(1, 2) }",
    );
    assert!(!errs.is_empty());
    assert!(matches!(errs[0], TypeError::ArgCountMismatch { .. }));
}

#[test]
fn mod_error_undefined_function() {
    let errs = check_fn_errors("fn bad() -> i32 { nope() }");
    assert!(!errs.is_empty());
    assert!(matches!(errs[0], TypeError::UndefinedFunction { .. }));
}

// ── Deferred — non-fatal, inference continues ─────────────────────────────

#[test]
fn deferred_field_access_on_primitive_non_fatal() {
    // i32 is not a struct — deferred with "field access on non-struct type", still non-fatal.
    let tokens = Lexer::new("fn f(n: i32) { let _x = n.foo; }").lex().expect("lex");
    let ast = Parser::new(tokens).parse().expect("parse");
    assert!(typechecker::infer(&ast).is_ok());
}

// ── Method call resolution ────────────────────────────────────────────────



#[test]
fn error_method_not_found_on_primitive() {
    // Previously `deferred_method_call_non_fatal`. Now that method calls are
    // resolved, calling `.abs()` on `i32` (which has no impl block) is a fatal error.
    let errs = infer_impl_errors("fn f(n: i32) { n.abs(); }");
    assert!(errs.iter().any(|e| matches!(e, TypeError::MethodNotFound { .. })));
}

#[test]
fn ok_method_call_returns_type() {
    // self.get() inside call_get should resolve to i32; no ReturnMismatch.
    let src = "impl Foo { \
        fn get(self) -> i32 { 0 } \
        fn call_get(self) -> i32 { self.get() } \
    }";
    assert!(infer_impl(src).is_ok());
}

#[test]
fn error_method_not_found_wrong_name() {
    // `other` exists but `missing` does not — suggestion should name `other`.
    let src = "impl Foo { fn other(self) {} fn bad(self) { self.missing(); } }";
    let errs = infer_impl_errors(src);
    assert!(errs.iter().any(|e| {
        if let TypeError::MethodNotFound { method_name, suggestion, .. } = e {
            method_name == "missing"
                && suggestion.as_deref().unwrap_or("").contains("other")
        } else {
            false
        }
    }));
}

#[test]
fn error_method_arg_count_mismatch() {
    let src = "impl Foo { \
        fn add(self, x: i32) -> i32 { x } \
        fn test(self) { self.add(); } \
    }";
    let errs = infer_impl_errors(src);
    assert!(errs.iter().any(|e| matches!(e,
        TypeError::ArgCountMismatch { name, expected: 1, found: 0, .. }
        if name == "Foo::add"
    )));
}

#[test]
fn ok_move_self_binds_by_value() {
    // `move self` → Ty::Named("Foo") by value; no fatal errors.
    assert!(infer_impl("impl Foo { fn consume(move self) {} }").is_ok());
}

#[test]
fn error_self_access_ambiguity() {
    // `take(self)` consumes self; `self.peek()` does not — ambiguity.
    let src = "\
        fn take(x: Foo) {} \
        impl Foo { \
            fn peek(self) {} \
            fn bad(self) { take(self); self.peek(); } \
        }";
    let errs = infer_impl_errors(src);
    assert!(errs.iter().any(|e| matches!(e,
        TypeError::SelfAccessAmbiguity { fn_name, .. } if fn_name == "bad"
    )));
}

#[test]
fn ok_method_cascade_suppression() {
    // Receiver type is Ty::Error (undefined var); no second error from method lookup.
    let src = "fn test() { missing.method(); }";
    let errs = infer_impl_errors(src);
    // Exactly one error: UndefinedVariable for `missing`; no MethodNotFound piled on.
    assert_eq!(errs.len(), 1);
    assert!(matches!(&errs[0], TypeError::UndefinedVariable { name, .. } if name == "missing"));
}

#[test]
fn ok_self_return_type_resolves() {
    // `Self` in return position resolves to Ty::Named("Foo"); no Deferred for Self.
    // `self` as tail → consuming → self: Ty::Named("Foo"); return type Ty::Named("Foo") matches.
    let src = "impl Foo { fn dup(self) -> Self { self } }";
    assert!(infer_impl(src).is_ok());
}

#[test]
fn ok_self_ref_receiver_dispatch() {
    // Non-consuming self is bound as Ty::Ref { inner: Ty::Named("Foo") }.
    // Auto-deref in dispatch_ty_name strips the Ref to find "Foo" in impl_sigs.
    let src = "impl Foo { \
        fn get(self) -> i32 { 0 } \
        fn call_get(self) -> i32 { self.get() } \
    }";
    assert!(infer_impl(src).is_ok());
}

#[test]
fn error_method_arg_type_mismatch() {
    // Right arg count, wrong type: `add` expects i32, caller passes bool.
    let src = "impl Foo { \
        fn add(self, x: i32) -> i32 { x } \
        fn test(self) { self.add(true); } \
    }";
    let errs = infer_impl_errors(src);
    assert!(errs.iter().any(|e| matches!(e,
        TypeError::Mismatch { expected: Ty::I32, found: Ty::Bool, .. }
    )));
}

#[test]
fn error_self_mutating_and_consuming_ambiguity() {
    // `&mut self` in the body is a mutating (borrowing) use.
    // `take(self)` is a consuming use in the same body.
    // Widened predicate: mutating+consuming → SelfAccessAmbiguity, not silent by-value.
    let src = "\
        fn take(x: Foo) {} \
        impl Foo { \
            fn bad(self) { let _b = &mut self; take(self); } \
        }";
    let errs = infer_impl_errors(src);
    assert!(errs.iter().any(|e| matches!(e,
        TypeError::SelfAccessAmbiguity { fn_name, .. } if fn_name == "bad"
    )));
}

#[test]
fn error_consume_via_ref() {
    // `consume` declares `move self` (requires ownership).
    // `caller` has bare `self` → scanned as non-consuming → self bound as &Foo.
    // Calling `self.consume()` through &Foo must be a hard ConsumeViaRef error.
    let src = "impl Foo { \
        fn consume(move self) {} \
        fn caller(self) { self.consume(); } \
    }";
    let errs = infer_impl_errors(src);
    // Exactly one error — ConsumeViaRef does not cascade further.
    assert_eq!(errs.len(), 1);
    assert!(matches!(&errs[0],
        TypeError::ConsumeViaRef { ty_name, method_name, .. }
        if ty_name == "Foo" && method_name == "consume"
    ));
}

// ── Duplicate detection ───────────────────────────────────────────────────

#[test]
fn error_duplicate_free_fn() {
    let errs = check_fn_errors("fn foo() {} fn foo() {}");
    assert!(errs.iter().any(|e| matches!(e, TypeError::DuplicateFn { name, .. } if name == "foo")));
}

#[test]
fn error_duplicate_method_same_type() {
    let src = "impl Foo { fn bar(self) {} } impl Foo { fn bar(self) {} }";
    let tokens = Lexer::new(src).lex().expect("lex");
    let ast = Parser::new(tokens).parse().expect("parse");
    let errs = match typechecker::infer(&ast) {
        Ok(_) => vec![],
        Err(e) => e,
    };
    assert!(errs.iter().any(|e| matches!(e,
        TypeError::DuplicateMethod { ty_name, method_name, .. }
        if ty_name == "Foo" && method_name == "bar"
    )));
}

#[test]
fn ok_two_impl_blocks_non_overlapping() {
    let src = "impl Foo { fn a(self) {} } impl Foo { fn b(self) {} }";
    let tokens = Lexer::new(src).lex().expect("lex");
    let ast = Parser::new(tokens).parse().expect("parse");
    assert!(typechecker::infer(&ast).is_ok());
}

#[test]
fn ok_duplicate_method_name_different_types() {
    let src = "impl Foo { fn draw(self) {} } impl Bar { fn draw(self) {} }";
    let tokens = Lexer::new(src).lex().expect("lex");
    let ast = Parser::new(tokens).parse().expect("parse");
    assert!(typechecker::infer(&ast).is_ok());
}

#[test]
fn ok_free_fn_and_method_same_name() {
    let src = "fn draw() {} impl Foo { fn draw(self) {} }";
    let tokens = Lexer::new(src).lex().expect("lex");
    let ast = Parser::new(tokens).parse().expect("parse");
    assert!(typechecker::infer(&ast).is_ok());
}

#[test]
fn error_duplicate_fn_and_method_coexist() {
    let src = "fn foo() {} fn foo() {} impl Foo { fn bar() {} } impl Foo { fn bar() {} }";
    let tokens = Lexer::new(src).lex().expect("lex");
    let ast = Parser::new(tokens).parse().expect("parse");
    let errs = match typechecker::infer(&ast) {
        Ok(_) => vec![],
        Err(e) => e,
    };
    assert!(errs.iter().any(|e| matches!(e, TypeError::DuplicateFn { .. })));
    assert!(errs.iter().any(|e| matches!(e, TypeError::DuplicateMethod { .. })));
}

// ── Struct field access ─────────────────────────────────────────────────



#[test]
fn ok_copy_field_read() {
    // f64 is Copy — reading p.x in let is fine.
    let src = "struct Point { x: f64, y: f64 } fn f(p: Point) -> f64 { let v = p.x; v }";
    assert!(infer_program(src).is_ok());
}

#[test]
fn ok_borrow_of_non_copy_field() {
    // &entity.sprite is a borrow (Unary), not a direct Let/Return/call-arg move.
    // FieldOwnNonCopy only fires at those positions; borrowing a field is always fine.
    let src = "move struct Sprite { id: i32 } struct Entity { sprite: Sprite } \
               fn f(e: Entity) -> &Sprite { &e.sprite }";
    assert!(infer_program(src).is_ok());
}

#[test]
fn error_field_own_non_copy_let() {
    let src = "move struct Sprite { id: i32 } struct Entity { sprite: Sprite } \
               fn f(e: Entity) { let _s = e.sprite; }";
    let errs = infer_program_errors(src);
    assert!(errs.iter().any(|e| matches!(e, TypeError::FieldOwnNonCopy { field_name, .. } if field_name == "sprite")));
}

#[test]
fn error_field_own_non_copy_return() {
    let src = "move struct Sprite { id: i32 } struct Entity { sprite: Sprite } \
               fn f(e: Entity) -> Sprite { return e.sprite; }";
    let errs = infer_program_errors(src);
    assert!(errs.iter().any(|e| matches!(e, TypeError::FieldOwnNonCopy { field_name, .. } if field_name == "sprite")));
}

#[test]
fn error_field_own_non_copy_call_arg() {
    let src = "move struct Sprite { id: i32 } struct Entity { sprite: Sprite } \
               fn consume(s: Sprite) {} \
               fn f(e: Entity) { consume(e.sprite); }";
    let errs = infer_program_errors(src);
    assert!(errs.iter().any(|e| matches!(e, TypeError::FieldOwnNonCopy { field_name, .. } if field_name == "sprite")));
}

#[test]
fn error_field_write_via_shared_ref() {
    // Writing through &Point is forbidden.
    let src = "struct Point { x: f64 } fn f(r: &Point) { r.x = 1.0; }";
    let errs = infer_program_errors(src);
    assert!(errs.iter().any(|e| matches!(e,
        TypeError::FieldWriteViaSharedRef { ty_name, field_name, .. }
        if ty_name == "Point" && field_name == "x"
    )));
}

#[test]
fn error_field_not_found() {
    let src = "struct Point { x: f64, y: f64 } fn f(p: Point) -> f64 { p.z }";
    let errs = infer_program_errors(src);
    assert!(errs.iter().any(|e| {
        if let TypeError::FieldNotFound { field_name, available, .. } = e {
            field_name == "z" && available.contains(&"x".to_string())
        } else { false }
    }));
}

#[test]
fn ok_cascade_suppression_on_error_receiver() {
    // Receiver is Ty::Error (undefined var) — no FieldNotFound piled on.
    let src = "struct Point { x: f64 } fn f() -> f64 { missing.x }";
    let errs = infer_program_errors(src);
    assert_eq!(errs.len(), 1);
    assert!(matches!(&errs[0], TypeError::UndefinedVariable { name, .. } if name == "missing"));
}

#[test]
fn ok_copy_struct_override() {
    // `copy struct` → always Copy even if we explicitly use fields in let.
    let src = "copy struct Handle { fd: i32 } fn f(h: Handle) -> i32 { let v = h.fd; v }";
    assert!(infer_program(src).is_ok());
}

#[test]
fn error_move_struct_override_non_copy_field() {
    // `move struct` with an i32 field: the struct is Move despite i32 being Copy.
    let src = "move struct Fd { raw: i32 } fn f(s: Fd) { let _x = s.raw; }";
    let errs = infer_program_errors(src);
    assert!(errs.iter().any(|e| matches!(e, TypeError::FieldOwnNonCopy { field_name, .. } if field_name == "raw")));
}

#[test]
fn ok_mutable_ref_field_write() {
    // Writing through &mut Point is valid — no FieldWriteViaSharedRef.
    let src = "struct Point { x: f64 } fn f(r: &mut Point) { r.x = 1.0; }";
    assert!(infer_program(src).is_ok());
}

#[test]
fn deferred_generic_struct_field_access() {
    // Generic struct: field access is deferred (non-fatal) in phase 1.
    let src = "struct Cache<T> { val: T } fn f(c: Cache) -> i32 { c.val }";
    let tokens = Lexer::new(src).lex().expect("lex");
    let ast = Parser::new(tokens).parse().expect("parse");
    assert!(typechecker::infer(&ast).is_ok());
}

#[test]
fn error_field_own_non_copy_through_shared_ref_receiver() {
    // `ref_entity: &Entity`, Entity is non-Copy because Sprite is move struct.
    // `ref_entity.sprite` is a direct Expr::Field — check fires despite receiver being a ref.
    // auto-deref in check_field_own_non_copy: obj_ty = &Entity → struct_ty = Entity → non-Copy.
    let src = "move struct Sprite { id: i32 } struct Entity { sprite: Sprite }                    fn f(r: &Entity) { let _s: Sprite = r.sprite; }";
    let errs = infer_program_errors(src);
    assert!(errs.iter().any(|e| matches!(e,
        TypeError::FieldOwnNonCopy { field_name, .. } if field_name == "sprite"
    )));
}

// ── check_tail_field_own_non_copy: block/if tail wrappers ────────────────

#[test]
fn error_field_own_non_copy_block_tail_let() {
    let src = "move struct Sprite { id: i32 } struct Entity { sprite: Sprite }                    fn f(e: Entity) { let _x: Sprite = { e.sprite }; }";
    let errs = infer_program_errors(src);
    assert!(errs.iter().any(|e| matches!(e,
        TypeError::FieldOwnNonCopy { field_name, .. } if field_name == "sprite"
    )));
}

#[test]
fn error_field_own_non_copy_block_tail_return() {
    let src = "move struct Sprite { id: i32 } struct Entity { sprite: Sprite }                    fn f(e: Entity) -> Sprite { return { e.sprite }; }";
    let errs = infer_program_errors(src);
    assert!(errs.iter().any(|e| matches!(e,
        TypeError::FieldOwnNonCopy { field_name, .. } if field_name == "sprite"
    )));
}

#[test]
fn error_field_own_non_copy_block_tail_call_arg() {
    let src = "move struct Sprite { id: i32 } struct Entity { sprite: Sprite }                    fn consume(_s: Sprite) {}                    fn f(e: Entity) { consume({ e.sprite }); }";
    let errs = infer_program_errors(src);
    assert!(errs.iter().any(|e| matches!(e,
        TypeError::FieldOwnNonCopy { field_name, .. } if field_name == "sprite"
    )));
}

#[test]
fn error_field_own_non_copy_if_else_branches() {
    // let-init is Expr::If — both branches are field accesses on non-Copy struct.
    let src = "move struct Sprite { id: i32 } struct Entity { sprite: Sprite }                    fn f(e1: Entity, e2: Entity, cond: bool) {                        let _s = if cond { e1.sprite } else { e2.sprite };                    }";
    let errs = infer_program_errors(src);
    assert!(errs.iter().any(|e| matches!(e,
        TypeError::FieldOwnNonCopy { field_name, .. } if field_name == "sprite"
    )));
}

#[test]
fn error_field_own_non_copy_implicit_return_bare() {
    // Function body tail is a bare Expr::Field — implicit return, no `return` keyword.
    // infer_fn must call check_tail_field_own_non_copy on f.body.tail.
    let src = "move struct Sprite { id: i32 } struct Entity { sprite: Sprite } \
               fn f(e: Entity) -> Sprite { e.sprite }";
    let errs = infer_program_errors(src);
    assert!(errs.iter().any(|e| matches!(e,
        TypeError::FieldOwnNonCopy { field_name, .. } if field_name == "sprite"
    )));
}

#[test]
fn error_field_own_non_copy_implicit_return_if_else() {
    // Function body tail is Expr::If with field accesses in both branches.
    let src = "move struct Sprite { id: i32 } struct Entity { sprite: Sprite } \
               fn f(e1: Entity, e2: Entity, cond: bool) -> Sprite { \
                   if cond { e1.sprite } else { e2.sprite } \
               }";
    let errs = infer_program_errors(src);
    assert!(errs.iter().any(|e| matches!(e,
        TypeError::FieldOwnNonCopy { field_name, .. } if field_name == "sprite"
    )));
}

#[test]
fn error_field_own_non_copy_match_arm_tail() {
    // Match arm tail is a non-Copy field access — check_tail_field_own_non_copy must
    // recurse into arm bodies.
    let src = "move struct Sprite { id: i32 } struct Entity { sprite: Sprite } \
               enum Pick { First, Second } \
               fn f(e1: Entity, e2: Entity, p: Pick) -> Sprite { \
                   match p { First => e1.sprite, Second => e2.sprite, } \
               }";
    let errs = infer_program_errors(src);
    assert!(errs.iter().any(|e| matches!(e,
        TypeError::FieldOwnNonCopy { field_name, .. } if field_name == "sprite"
    )));
}

#[test]
fn ok_field_copy_through_block_tail() {
    // Point is inferred-Copy (all fields f64) — block tail should not fire FieldOwnNonCopy.
    let src = "struct Point { x: f64 } fn f(p: Point) { let _x: f64 = { p.x }; }";
    assert!(infer_program(src).is_ok());
}

#[test]
fn ok_field_borrow_in_block_tail() {
    // Block tail is &e.sprite (Expr::Unary { Ref, Expr::Field }) — not Expr::Field at tail.
    // helper hits _ => false → no FieldOwnNonCopy.
    let src = "move struct Sprite { id: i32 } struct Entity { sprite: Sprite }                    fn f(e: &Entity) { let _r = { &e.sprite }; }";
    let errs = infer_program_errors(src);
    assert!(!errs.iter().any(|e| matches!(e, TypeError::FieldOwnNonCopy { .. })));
}

#[test]
fn error_duplicate_struct() {
    let src = "struct Foo { x: i32 } struct Foo { y: bool }";
    let errs = infer_program_errors(src);
    assert!(errs.iter().any(|e| matches!(e, TypeError::DuplicateStruct { name, .. } if name == "Foo")));
}

// ── Struct literals ───────────────────────────────────────────────────────

const POINT_DEF: &str = "struct Point { x: f64, y: f64 }";

#[test]
fn struct_lit_valid() {
    let src = &format!("{POINT_DEF} fn f() -> Point {{ Point {{ x = 1.0, y = 2.0 }} }}");
    assert!(infer_program(src).is_ok());
}

#[test]
fn struct_lit_valid_any_field_order() {
    let src = &format!("{POINT_DEF} fn f() -> Point {{ Point {{ y = 2.0, x = 1.0 }} }}");
    assert!(infer_program(src).is_ok());
}

#[test]
fn struct_lit_trailing_comma() {
    let src = &format!("{POINT_DEF} fn f() -> Point {{ Point {{ x = 1.0, y = 2.0, }} }}");
    assert!(infer_program(src).is_ok());
}

#[test]
fn struct_lit_undefined_struct() {
    let src = "fn f() { let _ = Unknown { x = 1 }; }";
    let errs = infer_program_errors(src);
    assert!(errs.iter().any(|e| matches!(e, TypeError::UndefinedStruct { name, .. } if name == "Unknown")));
}

#[test]
fn struct_lit_unknown_field() {
    let src = &format!("{POINT_DEF} fn f() {{ let _ = Point {{ x = 1.0, z = 2.0 }}; }}");
    let errs = infer_program_errors(src);
    assert!(errs.iter().any(|e| matches!(e, TypeError::FieldNotFound { field_name, .. } if field_name == "z")));
}

#[test]
fn struct_lit_wrong_field_type() {
    let src = &format!("{POINT_DEF} fn f() {{ let _ = Point {{ x = true, y = 2.0 }}; }}");
    let errs = infer_program_errors(src);
    assert!(errs.iter().any(|e| matches!(e, TypeError::Mismatch { expected: Ty::F64, .. })));
}

#[test]
fn struct_lit_missing_field() {
    let src = &format!("{POINT_DEF} fn f() {{ let _ = Point {{ x = 1.0 }}; }}");
    let errs = infer_program_errors(src);
    assert!(errs.iter().any(|e| matches!(e, TypeError::MissingStructFields { missing, .. } if missing.contains(&"y".to_string()))));
}

#[test]
fn struct_lit_duplicate_field() {
    let src = &format!("{POINT_DEF} fn f() {{ let _ = Point {{ x = 1.0, x = 2.0, y = 0.0 }}; }}");
    let errs = infer_program_errors(src);
    assert!(errs.iter().any(|e| matches!(e, TypeError::DuplicateStructField { field_name, .. } if field_name == "x")),
        "expected DuplicateStructField for x, got: {:?}", errs);
}

#[test]
fn struct_lit_as_call_arg() {
    let src = &format!("{POINT_DEF} fn consume(_p: Point) {{}} fn f() {{ consume(Point {{ x = 1.0, y = 2.0 }}); }}");
    assert!(infer_program_errors(src).is_empty());
}

#[test]
fn struct_lit_as_return_value() {
    let src = &format!("{POINT_DEF} fn f() -> Point {{ return Point {{ x = 0.0, y = 0.0 }}; }}");
    assert!(infer_program_errors(src).is_empty());
}

#[test]
fn struct_lit_deferred_for_generic_struct() {
    let src = "struct Wrap<T> { val: T } fn f() { let _ = Wrap { val = 1 }; }";
    let result = infer_program(src).expect("no fatal errors");
    assert!(result.deferred.iter().any(|e| matches!(e, TypeError::Deferred { feature, .. } if feature.contains("generic struct"))));
}

// ── Bug 1 regression: return_ty propagation into if/while/loop blocks ────

#[test]
fn return_inside_if_then() {
    // Bug 1: `return 42` inside an if-then body saw Ty::Unit as the expected
    // return type and fired a false ReturnMismatch("expected Unit, found I32").
    assert!(check_fn_errors("fn f(b: bool) -> i32 { if b { return 42; } 0 }").is_empty());
}

#[test]
fn return_inside_if_else() {
    // Same bug in the else branch.
    assert!(check_fn_errors(
        "fn f(b: bool) -> i32 { if b { let _ = 1; } else { return 99; } 0 }"
    ).is_empty());
}

#[test]
fn return_inside_while_body() {
    assert!(check_fn_errors(
        "fn f() -> i32 { \
            let mut i = 0; \
            while i < 10 { if i == 5 { return i; } i = i + 1; } \
            0 \
        }"
    ).is_empty());
}

#[test]
fn return_inside_loop_body() {
    assert!(check_fn_errors(
        "fn f() -> i32 { \
            let mut i = 0; \
            loop { i = i + 1; if i >= 5 { return i; } } \
            0 \
        }"
    ).is_empty());
}

#[test]
fn return_inside_nested_else_if() {
    // Nested `else { if ... }` chain: both if-bodies have returns.
    assert!(check_fn_errors(
        "fn f(a: bool, b: bool) -> i32 { \
            if a { return 1; } else { if b { return 2; } } \
            0 \
        }"
    ).is_empty());
}

// ── Bug 2 regression: compound assignment type checking ───────────────────

#[test]
fn ok_compound_assign_i32() {
    // Bug 2: `x += 1` previously emitted Deferred and blocked codegen.
    assert!(check_fn_errors("fn f() -> i32 { let mut x = 0; x += 1; x }").is_empty());
}

#[test]
fn error_compound_assign_bool_rhs() {
    // `x += true` must be a real Mismatch, not Deferred.
    // Proves Deferred was not silently hiding a genuine type-safety gap.
    let errs = check_fn_errors("fn f() -> i32 { let mut x = 0; x += true; x }");
    assert!(errs.iter().any(|e| matches!(e,
        TypeError::Mismatch { expected: Ty::I32, found: Ty::Bool, .. }
    )), "expected Mismatch(I32, Bool), got: {:?}", errs);
}

#[test]
fn ok_compound_assign_field() {
    // `p.x += 5`: compound assign on a struct field.
    let src = "struct Point { x: i32, y: i32 } \
               fn f() -> i32 { let mut p = Point { x = 0, y = 0 }; p.x += 5; p.x }";
    assert!(infer_program_errors(src).is_empty());
}

#[test]
fn error_compound_assign_field_via_shared_ref() {
    // Compound assign through a shared ref: FieldWriteViaSharedRef takes precedence;
    // check_binary_op_types is never reached, no secondary Mismatch piled on.
    let src = "struct Point { x: i32 } fn f(p: &Point) { p.x += 1; }";
    let errs = infer_program_errors(src);
    assert_eq!(errs.len(), 1, "expected exactly one error, got: {:?}", errs);
    assert!(matches!(&errs[0],
        TypeError::FieldWriteViaSharedRef { field_name, .. } if field_name == "x"
    ), "expected FieldWriteViaSharedRef, got: {:?}", errs[0]);
}

// ── Enum declarations ───────────────────────────────────────────────────

// T_en_01: bare unit variant resolves to the owning enum type.
#[test]
fn ok_bare_unit_variant() {
    let src = "enum Dir { North, South } fn f() -> Dir { North }";
    assert!(infer_program(src).is_ok());
}

// T_en_02: bare tuple variant constructor resolves to the owning enum type.
#[test]
fn ok_bare_tuple_variant() {
    let src = "enum Shape { Circle(f64), Point } fn f() -> Shape { Circle(3.14) }";
    assert!(infer_program(src).is_ok());
}

// T_en_03: qualified unit variant (`Dir.North`).
#[test]
fn ok_qualified_unit_variant() {
    let src = "enum Dir { North, South } fn f() -> Dir { Dir.North }";
    assert!(infer_program(src).is_ok());
}

// T_en_04: qualified tuple variant (`Shape.Circle(3.14)`).
#[test]
fn ok_qualified_tuple_variant() {
    let src = "enum Shape { Circle(f64) } fn f() -> Shape { Shape.Circle(3.14) }";
    assert!(infer_program(src).is_ok());
}

// T_en_05: `copy enum` declaration is accepted; no errors.
#[test]
fn ok_copy_enum_declaration() {
    let src = "copy enum Dir { North, South } fn f() -> Dir { North }";
    assert!(infer_program(src).is_ok());
}

// T_en_06: `move enum` declaration is accepted; no errors.
#[test]
fn ok_move_enum_declaration() {
    let src = "move enum Handle { Open(i32), Closed } fn f() -> Handle { Closed }";
    assert!(infer_program(src).is_ok());
}

// T_en_07: generic enum is accepted; variant access is deferred (non-fatal).
#[test]
fn ok_generic_enum_deferred() {
    let src = "enum Opt<T> { Some(T), None } fn f() {}";
    let result = infer_program(src).expect("no fatal errors");
    let _ = result;
}

// T_en_08: duplicate enum name is a fatal error.
#[test]
fn error_duplicate_enum() {
    let src = "enum Dir { North } enum Dir { South }";
    let errs = infer_program_errors(src);
    assert!(errs.iter().any(|e| matches!(e,
        TypeError::DuplicateEnum { name, .. } if name == "Dir"
    )));
}

// T_en_09: duplicate variant name within the same enum is a fatal error.
#[test]
fn error_duplicate_variant_in_enum() {
    let src = "enum E { Foo, Bar, Foo } fn f() {}";
    let errs = infer_program_errors(src);
    assert!(errs.iter().any(|e| matches!(e,
        TypeError::DuplicateVariant { variant_name, .. } if variant_name == "Foo"
    )));
}

// T_en_10: wrong number of arguments to tuple variant constructor.
#[test]
fn error_variant_arg_count_mismatch() {
    let src = "enum Shape { Circle(f64) } fn f() -> Shape { Circle(1.0, 2.0) }";
    let errs = infer_program_errors(src);
    assert!(errs.iter().any(|e| matches!(e,
        TypeError::VariantArgCountMismatch { variant_name, expected: 1, found: 2, .. }
        if variant_name == "Circle"
    )));
}

// T_en_11: unit variant called as a function.
#[test]
fn error_unit_variant_called_as_function() {
    let src = "enum Dir { North } fn f() -> Dir { North() }";
    let errs = infer_program_errors(src);
    assert!(errs.iter().any(|e| matches!(e,
        TypeError::UnitVariantCalledAsFunction { variant_name, .. }
        if variant_name == "North"
    )));
}

// T_en_12: tuple variant used without arguments.
#[test]
fn error_tuple_variant_used_as_unit() {
    let src = "enum Shape { Circle(f64) } fn f() -> Shape { Circle }";
    let errs = infer_program_errors(src);
    assert!(errs.iter().any(|e| matches!(e,
        TypeError::TupleVariantUsedAsUnit { variant_name, .. }
        if variant_name == "Circle"
    )));
}

// T_en_13a: two enums may declare the same variant name — valid at declaration time.
#[test]
fn ok_two_enums_same_variant_name_declaration() {
    let src = "enum A { Foo, Bar } enum B { Foo, Baz } fn f() {}";
    assert!(infer_program(src).is_ok());
}

// T_en_13b: qualified form always resolves correctly even when name is shared.
#[test]
fn ok_qualified_disambiguates_shared_variant_name() {
    let src = "enum A { Foo } enum B { Foo }                    fn use_a() -> A { A.Foo }                    fn use_b() -> B { B.Foo }";
    assert!(infer_program(src).is_ok());
}

// T_en_16: `move enum` + qualified unit variant in tail — no FieldOwnNonCopy.
#[test]
fn ok_move_enum_qualified_unit_variant_tail() {
    let src = "move enum Dir { North, South } fn f() -> Dir { Dir.North }";
    assert!(infer_program(src).is_ok());
}

// T_en_17: `move enum` + qualified unit variant in block tail — no FieldOwnNonCopy.
#[test]
fn ok_move_enum_qualified_unit_variant_block_tail() {
    let src = "move enum Dir { North, South } fn f() -> Dir { { Dir.North } }";
    assert!(infer_program(src).is_ok());
}

// T_en_18: `move enum` + qualified unit variant in let — no FieldOwnNonCopy.
#[test]
fn ok_move_enum_qualified_unit_variant_let() {
    let src = "move enum Dir { North, South } fn f() -> Dir { let v = Dir.North; v }";
    assert!(infer_program(src).is_ok());
}

// T_en_19: inferred-non-Copy enum (contains a move-struct field) + qualified variant.
#[test]
fn ok_non_copy_inferred_enum_qualified_variant() {
    // Handle wraps an i32 — but enum is non-Copy because str is non-Copy in one variant
    // Use a move enum instead since that's the reliable non-Copy path.
    let src = "move enum Handle { Open(i32), Closed } fn f() -> Handle { Handle.Closed }";
    assert!(infer_program(src).is_ok());
}

// T_en_13c: bare form of a shared variant name is a fatal use-time error.
#[test]
fn error_ambiguous_bare_variant() {
    let src = "enum A { Foo } enum B { Foo } fn f() -> A { Foo }";
    let errs = infer_program_errors(src);
    assert!(errs.iter().any(|e| matches!(e,
        TypeError::AmbiguousVariant { variant_name, defined_in, .. }
        if variant_name == "Foo" && defined_in.len() == 2
    )));
}

// T_en_13d: bare form of an unambiguous variant (shared name but DIFFERENT variant unambiguous).
#[test]
fn ok_unambiguous_bare_variant_with_sibling_ambiguous() {
    let src = "enum A { Foo, Bar } enum B { Foo, Baz }                    fn f() -> A { Bar }                    fn g() -> B { Baz }";
    assert!(infer_program(src).is_ok());
}

// T_en_14: variant argument type mismatch (tuple variant).
#[test]
fn error_variant_arg_type_mismatch() {
    let src = "enum Shape { Circle(f64) } fn f() -> Shape { Circle(42) }";
    let errs = infer_program_errors(src);
    assert!(errs.iter().any(|e| matches!(e, TypeError::Mismatch { .. })));
}

// T_en_15: enum type used as a struct field type.
#[test]
fn ok_enum_as_struct_field_type() {
    let src = "enum Dir { North, South }                    struct Step { dir: Dir, dist: i32 }                    fn f() -> i32 {                        let s = Step { dir = North, dist = 5 };                        s.dist                    }";
    assert!(infer_program(src).is_ok());
}

// ── Match / pattern-matching tests (T_m_01 – T_m_19) ─────────────────────

// T_m_01: exhaustive unit-variant enum match — all arms explicit, no wildcard.
#[test]
fn ok_match_enum_unit_variants_exhaustive() {
    let src = "enum Dir { North, South, East, West }
               fn f(d: Dir) -> i32 {
                   match d { North => 0, South => 1, East => 2, West => 3, }
               }";
    assert!(infer_program(src).is_ok());
}

// T_m_02: exhaustive tuple-variant match — payload bound and used in body.
#[test]
fn ok_match_enum_tuple_variant_payload_binding() {
    let src = "enum Shape { Circle(f64), Rect(i32) }
               fn f(s: Shape) -> i32 {
                   match s { Circle(r) => 0, Rect(w) => w, }
               }";
    assert!(infer_program(src).is_ok());
}

// T_m_03: non-exhaustive enum match — missing variant emits NonExhaustiveMatch.
#[test]
fn error_match_enum_non_exhaustive() {
    let src = "enum Dir { North, South, East }
               fn f(d: Dir) -> i32 {
                   match d { North => 0, South => 1, }
               }";
    let errs = infer_program_errors(src);
    assert!(errs.iter().any(|e| matches!(e,
        TypeError::NonExhaustiveMatch { missing, .. } if missing.contains(&"East".to_string())
    )));
}

// T_m_04: wildcard arm covers remaining variants — exhaustive.
#[test]
fn ok_match_enum_wildcard_covers_remainder() {
    let src = "enum Dir { North, South, East, West }
               fn f(d: Dir) -> i32 {
                   match d { North => 0, _ => 1, }
               }";
    assert!(infer_program(src).is_ok());
}

// T_m_05: guarded arm does NOT count toward exhaustiveness — still non-exhaustive.
#[test]
fn error_match_guarded_arm_not_exhaustive() {
    let src = "enum Opt { Some(i32), None }
               fn f(o: Opt) -> i32 {
                   match o { Some(x) if x > 0 => x, None => 0, }
               }";
    let errs = infer_program_errors(src);
    // Some is covered only by a guarded arm, so it's missing from unguarded coverage.
    assert!(errs.iter().any(|e| matches!(e,
        TypeError::NonExhaustiveMatch { missing, .. } if missing.contains(&"Some".to_string())
    )));
}

// T_m_06: bool match with explicit true + false — exhaustive without wildcard.
#[test]
fn ok_match_bool_explicit_true_false() {
    let src = "fn f(b: bool) -> i32 { match b { true => 1, false => 0, } }";
    assert!(infer_program(src).is_ok());
}

// T_m_07: bool match missing false — non-exhaustive.
#[test]
fn error_match_bool_missing_false() {
    let src = "fn f(b: bool) -> i32 { match b { true => 1, } }";
    let errs = infer_program_errors(src);
    assert!(errs.iter().any(|e| matches!(e,
        TypeError::NonExhaustiveMatch { missing, .. } if missing.contains(&"false".to_string())
    )));
}

// T_m_08: i32 subject without wildcard — non-exhaustive (open type requires _).
#[test]
fn error_match_i32_no_wildcard() {
    let src = "fn f(n: i32) -> i32 { match n { 0 => 1, 1 => 2, } }";
    let errs = infer_program_errors(src);
    assert!(errs.iter().any(|e| matches!(e,
        TypeError::NonExhaustiveMatch { missing, .. } if missing.contains(&"_".to_string())
    )));
}

// T_m_09: i32 subject with wildcard — exhaustive.
#[test]
fn ok_match_i32_with_wildcard() {
    let src = "fn f(n: i32) -> i32 { match n { 0 => 1, _ => 2, } }";
    assert!(infer_program(src).is_ok());
}

// T_m_10: payload binding typed correctly — Circle(r) binds r as f64.
#[test]
fn ok_match_payload_binding_typed() {
    let src = "enum Shape { Circle(f64) }
               fn f(s: Shape) -> i32 {
                   match s { Circle(r) => 0, }
               }";
    assert!(infer_program(src).is_ok());
}

// T_m_11: payload count mismatch — Circle(r, s) where Circle(f64) has one field.
#[test]
fn error_match_pattern_arg_count_mismatch() {
    let src = "enum Shape { Circle(f64) }
               fn f(s: Shape) -> i32 {
                   match s { Circle(r, extra) => 0, }
               }";
    let errs = infer_program_errors(src);
    assert!(errs.iter().any(|e| matches!(e,
        TypeError::PatternArgCountMismatch { expected: 1, found: 2, .. }
    )));
}

// T_m_12: match is value-producing — result used as function return type.
#[test]
fn ok_match_value_producing() {
    let src = "enum Dir { North, South }
               fn f(d: Dir) -> i32 {
                   let x = match d { North => 1, South => 2, };
                   x
               }";
    assert!(infer_program(src).is_ok());
}

// T_m_13: arm type mismatch — one arm i32, another bool.
#[test]
fn error_match_arm_type_mismatch() {
    let src = "enum Dir { North, South }
               fn f(d: Dir) -> i32 {
                   match d { North => 1, South => true, }
               }";
    let errs = infer_program_errors(src);
    assert!(errs.iter().any(|e| matches!(e, TypeError::MatchArmMismatch { .. })));
}

// T_m_14: unreachable arm — explicit variant arm after unguarded wildcard.
#[test]
fn error_match_unreachable_arm_after_wildcard() {
    let src = "enum Dir { North, South }
               fn f(d: Dir) -> i32 {
                   match d { _ => 0, North => 1, }
               }";
    let errs = infer_program_errors(src);
    assert!(errs.iter().any(|e| matches!(e, TypeError::UnreachableArm { .. })));
}

// T_m_15: unreachable arm — explicit arm after unguarded binding.
#[test]
fn error_match_unreachable_arm_after_binding() {
    let src = "enum Dir { North, South }
               fn f(d: Dir) -> i32 {
                   match d { x => 0, North => 1, }
               }";
    let errs = infer_program_errors(src);
    assert!(errs.iter().any(|e| matches!(e, TypeError::UnreachableArm { .. })));
}

// T_m_16: qualified pattern in match arm — clear parse error, not "expected =>".
#[test]
fn error_match_qualified_pattern_rejected() {
    let result = parse_expr("match s { Shape.Circle(r) => 0, _ => 1, }");
    assert!(result.is_err());
    let msg = result.unwrap_err().message();
    assert!(msg.contains("qualified patterns") || msg.contains("bare variant"),
        "expected qualified-pattern message, got: {msg}");
}

// T_m_17: or-pattern counts both variants for exhaustiveness.
#[test]
fn ok_match_or_pattern_counts_both_variants() {
    let src = "enum Dir { North, South, East }
               fn f(d: Dir) -> i32 {
                   match d { North | South => 0, East => 1, }
               }";
    assert!(infer_program(src).is_ok());
}

// T_m_18: guarded arm + separate unguarded arm for same variant — exhaustive.
#[test]
fn ok_match_guarded_plus_unguarded_exhaustive() {
    let src = "enum Opt { Some(i32), None }
               fn f(o: Opt) -> i32 {
                   match o {
                       Some(x) if x > 0 => x,
                       Some(_) => 0,
                       None => -1,
                   }
               }";
    assert!(infer_program(src).is_ok());
}

// T_m_19: unit variant used as constructor pattern — UnitVariantInConstructorPattern.
#[test]
fn error_match_unit_variant_as_constructor_pattern() {
    let src = "enum Dir { North, South }
               fn f(d: Dir) -> i32 {
                   match d { North() => 0, South => 1, }
               }";
    let errs = infer_program_errors(src);
    assert!(errs.iter().any(|e| matches!(e,
        TypeError::UnitVariantInConstructorPattern { variant_name, .. }
        if variant_name == "North"
    )));
}

// T_m_20: tuple variant used bare (no parentheses) in pattern — TupleVariantMissingPatternPayload,
// with no cascading NonExhaustiveMatch for the same variant.
#[test]
fn error_match_tuple_variant_used_bare_in_pattern() {
    let src = "enum Shape { Circle(f64), Rect(i32) }
               fn f(s: Shape) -> i32 {
                   match s { Circle => 0, Rect(w) => w, }
               }";
    let errs = infer_program_errors(src);
    assert!(errs.iter().any(|e| matches!(e,
        TypeError::TupleVariantMissingPatternPayload { variant_name, .. }
        if variant_name == "Circle"
    )));
    // Must not also emit NonExhaustiveMatch for Circle — one error is enough.
    assert!(!errs.iter().any(|e| matches!(e,
        TypeError::NonExhaustiveMatch { missing, .. } if missing.contains(&"Circle".to_string())
    )));
}


// ── The same programs, checked again through `typechecker::infer` ──

#[test]
fn infer_infer_void_fn() {
    assert_eq!(check_fn("fn greet() { }").unwrap(), Ty::Unit);
}

#[test]
fn infer_infer_i32_literal_return() {
    assert_eq!(check_fn("fn answer() -> i32 { 42 }").unwrap(), Ty::I32);
}

#[test]
fn infer_infer_f64_literal_return() {
    assert_eq!(check_fn("fn pi() -> f64 { 3.14 }").unwrap(), Ty::F64);
}

#[test]
fn infer_infer_bool_literal_return() {
    assert_eq!(check_fn("fn yes() -> bool { true }").unwrap(), Ty::Bool);
}

#[test]
fn infer_infer_param_passthrough() {
    assert_eq!(check_fn("fn id(x: bool) -> bool { x }").unwrap(), Ty::Bool);
}

#[test]
fn infer_infer_binary_arithmetic() {
    assert_eq!(check_fn("fn double(n: i32) -> i32 { n * 2 }").unwrap(), Ty::I32);
}

#[test]
fn infer_infer_comparison_returns_bool() {
    assert_eq!(check_fn("fn gt(a: i32, b: i32) -> bool { a > b }").unwrap(), Ty::Bool);
}

#[test]
fn infer_infer_logical_returns_bool() {
    assert_eq!(
        check_fn("fn both(a: bool, b: bool) -> bool { a && b }").unwrap(),
        Ty::Bool
    );
}

#[test]
fn infer_infer_unary_neg() {
    assert_eq!(check_fn("fn neg(x: i32) -> i32 { -x }").unwrap(), Ty::I32);
}

#[test]
fn infer_infer_unary_not() {
    assert_eq!(check_fn("fn inv(b: bool) -> bool { !b }").unwrap(), Ty::Bool);
}

#[test]
fn infer_infer_let_binding_with_annotation() {
    assert_eq!(
        check_fn("fn seq() -> i32 { let x: i32 = 5; x }").unwrap(),
        Ty::I32
    );
}

#[test]
fn infer_infer_let_binding_inferred() {
    assert_eq!(
        check_fn("fn seq() -> i32 { let x = 5; x }").unwrap(),
        Ty::I32
    );
}

#[test]
fn infer_infer_if_expression() {
    assert_eq!(
        check_fn("fn branch(b: bool) -> i32 { if b { 1 } else { 2 } }").unwrap(),
        Ty::I32
    );
}

#[test]
fn infer_infer_if_no_else_is_unit() {
    assert_eq!(
        check_fn("fn maybe(b: bool) { if b { let _x: i32 = 1; } }").unwrap(),
        Ty::Unit
    );
}

#[test]
fn infer_infer_free_function_call() {
    let src = "fn double(n: i32) -> i32 { n * 2 } fn quad(n: i32) -> i32 { double(double(n)) }";
    let tokens = Lexer::new(src).lex().expect("lex failed");
    let ast = Parser::new(tokens).parse().expect("parse failed");
    assert!(typechecker::infer(&ast).is_ok());
}

#[test]
fn infer_infer_while_is_unit() {
    assert_eq!(
        check_fn("fn count(n: i32) { let mut x: i32 = 0; while x < n { x = x + 1; } }").unwrap(),
        Ty::Unit
    );
}

// ── Type errors ───────────────────────────────────────────────────────────

#[test]
fn infer_error_return_mismatch() {
    let errs = check_fn_errors("fn bad() -> i32 { true }");
    assert!(!errs.is_empty());
    assert!(matches!(
        errs[0],
        TypeError::ReturnMismatch { expected: Ty::I32, found: Ty::Bool, .. }
    ));
}

#[test]
fn infer_error_undefined_variable() {
    let errs = check_fn_errors("fn bad() -> i32 { missing }");
    assert!(!errs.is_empty());
    assert!(matches!(errs[0], TypeError::UndefinedVariable { .. }));
}

#[test]
fn infer_error_let_annotation_mismatch() {
    let errs = check_fn_errors("fn bad() -> i32 { let x: bool = 5; x }");
    assert!(!errs.is_empty());
    assert!(matches!(
        errs[0],
        TypeError::Mismatch { expected: Ty::Bool, found: Ty::I32, .. }
    ));
}

#[test]
fn infer_error_non_bool_condition() {
    let errs = check_fn_errors("fn bad(n: i32) -> i32 { if n { 1 } else { 2 } }");
    assert!(!errs.is_empty());
    assert!(matches!(errs[0], TypeError::NonBoolCondition { found: Ty::I32, .. }));
}

#[test]
fn infer_error_branch_type_mismatch() {
    let errs = check_fn_errors(
        "fn bad(b: bool) -> i32 { if b { 1 } else { true } }",
    );
    assert!(!errs.is_empty());
    assert!(matches!(errs[0], TypeError::BranchMismatch { .. }));
}

#[test]
fn infer_error_arg_count_mismatch() {
    let errs = check_fn_errors(
        "fn double(n: i32) -> i32 { n * 2 } fn bad() -> i32 { double(1, 2) }",
    );
    assert!(!errs.is_empty());
    assert!(matches!(errs[0], TypeError::ArgCountMismatch { .. }));
}

#[test]
fn infer_error_undefined_function() {
    let errs = check_fn_errors("fn bad() -> i32 { nope() }");
    assert!(!errs.is_empty());
    assert!(matches!(errs[0], TypeError::UndefinedFunction { .. }));
}

// ── Deferred — non-fatal, inference continues ─────────────────────────────

#[test]
fn deferred_field_access_non_fatal() {
    let tokens = Lexer::new("fn f(n: i32) { let _x = n.foo; }").lex().expect("lex");
    let ast = Parser::new(tokens).parse().expect("parse");
    assert!(typechecker::infer(&ast).is_ok());
}

#[test]
fn duplicate_struct_first_definition_wins() {
    let errs = check_fn_errors("fn f(p: Foo) -> i32 { p.x } struct Foo { x: i32 } struct Foo { y: bool }");
    assert_eq!(errs.len(), 1, "got: {:?}", errs);
    assert!(matches!(&errs[0], TypeError::DuplicateStruct { name, .. } if name == "Foo"));
}

#[test]
fn duplicate_enum_first_definition_wins() {
    let errs = check_fn_errors("fn f() -> Dir { Dir.Up } enum Dir { Up, Down } enum Dir { Left }");
    assert_eq!(errs.len(), 1, "got: {:?}", errs);
    assert!(matches!(&errs[0], TypeError::DuplicateEnum { name, .. } if name == "Dir"));
}

#[test]
fn duplicate_variant_reported_once_per_repeat() {
    let errs = check_fn_errors("enum Color { Red, Green, Red, Red } fn f() {}");
    let dups = errs.iter().filter(|e| matches!(e, TypeError::DuplicateVariant { variant_name, .. } if variant_name == "Red")).count();
    assert_eq!(dups, 2, "got: {:?}", errs);
}

#[test]
fn missing_fields_listed_in_declaration_order() {
    let errs = check_fn_errors("struct P { a: i32, b: i32, c: i32 } fn f() -> P { P { b = 1 } }");
    assert!(errs.iter().any(|e| matches!(e, TypeError::MissingStructFields { missing, .. }
        if missing.len() == 2 && missing[0] == "a" && missing[1] == "c")), "got: {:?}", errs);
}

#[test]
fn if_with_non_bool_literal_condition_reported() {
    let errs = check_fn_errors("fn f() { if 1 { } }");
    assert!(matches!(&errs[0], TypeError::NonBoolCondition { found: Ty::I32, .. }), "got: {:?}", errs);
}

#[test]
fn if_branches_of_different_literal_types_mismatch() {
    let errs = check_fn_errors("fn f() -> i32 { if true { 1 } else { false } }");
    assert!(errs.iter().any(|e| matches!(e, TypeError::BranchMismatch { then: Ty::I32, else_: Ty::Bool, .. })), "got: {:?}", errs);
}

#[test]
fn empty_functions_program_accepted() {
    let result = infer_program("fn a() {} fn b() {} fn c() {}").expect("expected Ok");
    assert!(result.deferred.is_empty());
}

#[test]
fn arm_after_bare_binding_unreachable() {
    let errs = check_fn_errors("fn f(n: i32) -> i32 { match n { x => 1, 2 => 3 } }");
    assert!(errs.iter().any(|e| matches!(e, TypeError::UnreachableArm { .. })), "got: {:?}", errs);
}

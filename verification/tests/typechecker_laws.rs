use ofan::ast::{BinOp, UnaryOp};
use ofan::codegen::CodegenError;
use ofan::lexer::{Lexer, Span};
use ofan::parser::Parser;
use ofan::typechecker::env::{Env, InferCtx};
use ofan::typechecker::infer::ops::{binary_rule, check_binary_op_types, unary_rule};
use ofan::typechecker::infer::{check_types, is_copy, partition_errors};
use ofan::typechecker::{self, InferResult, Ty, TypeError};

fn infer_src(src: &str) -> Result<InferResult, Vec<TypeError>> {
    let tokens = Lexer::new(src).lex().expect("lex");
    let ast = Parser::new(tokens).parse().expect("parse");
    typechecker::infer(&ast)
}

fn errors_of(src: &str) -> Vec<TypeError> {
    match infer_src(src) {
        Ok(_) => vec![],
        Err(e) => e,
    }
}

fn sp(a: usize, b: usize) -> Span {
    Span { start: a, end: b }
}

#[test]
fn readme_example_checks() {
    let src = "struct Point { x: i32, y: i32 }
        impl Point {
            fn score(self) -> i32 { self.x * 10 + self.y }
            fn shift(self, dx: i32, dy: i32) {
                self.x = self.x + dx;
                self.y = self.y + dy;
            }
        }
        fn main() -> i32 {
            let mut p = Point { y = 7, x = 3 };
            let v1 = p.score();
            p.shift(2, -3);
            let v2 = p.score();
            v1 + v2
        }";
    let result = infer_src(src).expect("the example is well-typed");
    assert!(!result.has_deferred());
}

#[test]
fn error_integer_out_of_range() {
    let errs = errors_of("fn f() -> i32 { 2147483648 }");
    assert!(errs.iter().any(|e| matches!(e, TypeError::IntegerOutOfRange { value: 2147483648, .. })));
}

#[test]
fn ok_i32_min_literal() {
    assert!(infer_src("fn f() -> i32 { -2147483648 }").is_ok());
}

#[test]
fn error_pattern_type_mismatch() {
    let errs = errors_of("fn f(n: i32) -> i32 { match n { true => 1, _ => 0, } }");
    assert!(errs.iter().any(|e| matches!(e, TypeError::PatternTypeMismatch { subject_ty: Ty::I32, .. })));
}

#[test]
fn error_pattern_variant_not_found() {
    let errs = errors_of("enum Dir { North } fn f(d: Dir) -> i32 { match d { West(x) => 0, _ => 1, } }");
    assert!(errs.iter().any(|e| matches!(e, TypeError::PatternVariantNotFound { variant_name, available, .. }
        if variant_name == "West" && available == &vec!["North".to_string()])));
}

#[test]
fn error_qualified_variant_not_found() {
    let errs = errors_of("enum Dir { North } fn f() -> Dir { Dir.South }");
    assert!(errs.iter().any(|e| matches!(e, TypeError::VariantNotFound { variant_name, .. } if variant_name == "South")));
}

#[test]
fn error_method_not_found_lists_methods_sorted() {
    let errs = errors_of("impl Foo { fn zeta(self) {} fn alpha(self) {} fn bad(self) { self.nope(); } }");
    let sugg = errs.iter().find_map(|e| match e {
        TypeError::MethodNotFound { suggestion, .. } => suggestion.clone(),
        _ => None,
    }).expect("a MethodNotFound error");
    assert_eq!(sugg, "type `Foo` has methods: alpha, bad, zeta");
}

#[test]
fn errors_are_only_fatal_and_deferred_only_deferred() {
    // Law: `Err` carries only fatal errors; `Ok` carries only deferred ones.
    let errs = errors_of("fn f() -> i32 { let x = y as i32; true }");
    assert!(!errs.is_empty());
    assert!(errs.iter().all(|e| e.is_fatal()));
    let ok = infer_src("fn f() { let _x = 1 as f64; }").expect("only deferred");
    assert!(ok.has_deferred());
    assert!(ok.deferred.iter().all(|e| !e.is_fatal()));
}

#[test]
fn partition_errors_keeps_order() {
    let errs = vec![
        TypeError::Deferred { feature: "a".to_string(), span: sp(0, 1) },
        TypeError::UndefinedStruct { name: "S".to_string(), span: sp(2, 3) },
        TypeError::Deferred { feature: "b".to_string(), span: sp(4, 5) },
        TypeError::UndefinedStruct { name: "T".to_string(), span: sp(6, 7) },
    ];
    match partition_errors(errs) {
        Err(fatal) => {
            assert_eq!(fatal.len(), 2);
            assert!(matches!(&fatal[0], TypeError::UndefinedStruct { name, .. } if name == "S"));
            assert!(matches!(&fatal[1], TypeError::UndefinedStruct { name, .. } if name == "T"));
        },
        Ok(_) => panic!("fatal errors must give Err"),
    }
    let only_deferred = vec![TypeError::Deferred { feature: "a".to_string(), span: sp(0, 1) }];
    assert!(matches!(partition_errors(only_deferred), Ok(d) if d.len() == 1));
}

#[test]
fn env_define_then_lookup_and_scopes() {
    let mut env = Env::new();
    env.define("x".to_string(), Ty::I32);
    assert_eq!(env.lookup(&"x".to_string()), Some(&Ty::I32));
    env.push_scope();
    // An inner scope sees outer bindings until it shadows them.
    assert_eq!(env.lookup(&"x".to_string()), Some(&Ty::I32));
    env.define("x".to_string(), Ty::Bool);
    assert_eq!(env.lookup(&"x".to_string()), Some(&Ty::Bool));
    env.pop_scope();
    assert_eq!(env.lookup(&"x".to_string()), Some(&Ty::I32));
    assert_eq!(env.lookup(&"y".to_string()), None);
}

#[test]
fn record_first_type_wins() {
    let mut ctx = InferCtx::new();
    ctx.record(sp(1, 2), Ty::I32);
    ctx.record(sp(1, 2), Ty::Bool);
    assert_eq!(ctx.type_of(sp(1, 2)), Some(&Ty::I32));
    assert_eq!(ctx.type_map.len(), 1);
    assert_eq!(ctx.type_of(sp(3, 4)), None);
}

#[test]
fn check_types_suppresses_error_cascades() {
    let mut ctx = InferCtx::new();
    check_types(&Ty::I32, &Ty::Error, sp(0, 1), &mut ctx, None);
    check_types(&Ty::Error, &Ty::Bool, sp(0, 1), &mut ctx, None);
    check_types(&Ty::I32, &Ty::I32, sp(0, 1), &mut ctx, None);
    assert!(ctx.errors.is_empty());
    check_types(&Ty::I32, &Ty::Bool, sp(0, 1), &mut ctx, None);
    assert_eq!(ctx.errors.len(), 1);
    assert!(matches!(ctx.errors[0], TypeError::Mismatch { expected: Ty::I32, found: Ty::Bool, .. }));
}

#[test]
fn operator_rules_exact_results() {
    let mut ctx = InferCtx::new();
    assert_eq!(binary_rule(BinOp::Add, Ty::F64, Ty::F64, sp(0, 1), &mut ctx), Ty::F64);
    assert_eq!(binary_rule(BinOp::Lt, Ty::I32, Ty::I32, sp(0, 1), &mut ctx), Ty::Bool);
    assert_eq!(binary_rule(BinOp::Shl, Ty::I32, Ty::I32, sp(0, 1), &mut ctx), Ty::I32);
    assert!(ctx.errors.is_empty());
    assert_eq!(binary_rule(BinOp::And, Ty::Bool, Ty::I32, sp(0, 1), &mut ctx), Ty::Error);
    assert!(matches!(ctx.errors[0], TypeError::Mismatch { expected: Ty::Bool, found: Ty::I32, .. }));
    assert_eq!(unary_rule(UnaryOp::Neg, Ty::F64, sp(0, 1), &mut ctx), Ty::F64);
    assert_eq!(
        unary_rule(UnaryOp::BorrowMut, Ty::I32, sp(0, 1), &mut ctx),
        Ty::Ref { mutable: true, region: None, inner: Box::new(Ty::I32) }
    );
    assert_eq!(unary_rule(UnaryOp::Not, Ty::Error, sp(0, 1), &mut ctx), Ty::Error);
    assert_eq!(ctx.errors.len(), 1);
    check_binary_op_types(BinOp::BitOr, &Ty::Bool, &Ty::I32, sp(0, 1), &mut ctx);
    assert!(matches!(ctx.errors[1], TypeError::Mismatch { expected: Ty::I32, found: Ty::Bool, .. }));
}

#[test]
fn copy_rules_for_primitives_and_refs() {
    let ctx = InferCtx::new();
    assert!(is_copy(&Ty::I32, &ctx, 1));
    assert!(is_copy(&Ty::Ref { mutable: false, region: None, inner: Box::new(Ty::Str) }, &ctx, 1));
    assert!(!is_copy(&Ty::Ref { mutable: true, region: None, inner: Box::new(Ty::I32) }, &ctx, 1));
    assert!(!is_copy(&Ty::Str, &ctx, 1));
    assert!(!is_copy(&Ty::Named("Unknown".to_string()), &ctx, 1));
}

#[test]
fn struct_field_queries_agree() {
    let result = infer_src("struct P { a: i32, b: f64 } fn f() {}").expect("ok");
    let p = "P".to_string();
    assert_eq!(result.struct_field_index(&p, &"b".to_string()), Some(1));
    assert_eq!(result.struct_field_names(&p), Some(vec!["a".to_string(), "b".to_string()]));
    assert_eq!(result.struct_field_type(&p, &"b".to_string()), Some(&Ty::F64));
    assert_eq!(result.struct_field_index(&p, &"c".to_string()), None);
    assert_eq!(result.struct_field_names(&"Q".to_string()), None);
}

#[test]
fn type_of_block_and_tail_recorded() {
    let src = "fn f() -> i32 { 40 + 2 }";
    let tokens = Lexer::new(src).lex().unwrap();
    let ast = Parser::new(tokens).parse().unwrap();
    let result = typechecker::infer(&ast).unwrap();
    let ofan::ast::Item::Function(f) = &ast.items[0] else { panic!("function expected") };
    assert_eq!(result.type_of(f.body.span), Some(&Ty::I32));
    let tail = f.body.tail.as_ref().unwrap();
    assert_eq!(result.type_of(tail.span()), Some(&Ty::I32));
}

#[test]
fn type_error_messages_carry_location_and_advice() {
    let errs = errors_of("struct Point { x: f64 } fn f(r: &Point) { r.x = 1.0; }");
    let msg = errs[0].message();
    assert!(msg.contains("cannot assign to `Point::x` through a shared reference at byte"), "{msg}");
    assert!(msg.contains("suggestion"), "{msg}");
    let t = Ty::Ref { mutable: true, region: None, inner: Box::new(Ty::Named("P".to_string())) };
    assert_eq!(t.text(), "&mut P");
    assert_eq!(t.debug_text(), "Ref { mutable: true, region: None, inner: Named(\"P\") }");
}

#[test]
fn codegen_error_messages() {
    let e: CodegenError = CodegenError::from("bad state".to_string());
    assert_eq!(e, CodegenError::Ice("bad state".to_string()));
    assert_eq!(e.message(), "internal compiler error: bad state — please file a bug at github.com/ofan-lang/Ofan/issues");
    let n = CodegenError::NotYetLowered { feature: "casts".to_string(), byte: 7 };
    assert_eq!(n.message(), "not yet lowerable: casts (at byte 7) — this construct is planned; track progress in docs/PROGRESS.md");
}

#[test]
fn field_not_found_message_lists_fields_in_order() {
    let e = TypeError::FieldNotFound {
        ty_name: "P".to_string(),
        field_name: "z".to_string(),
        span: sp(4, 5),
        available: vec!["x".to_string(), "y".to_string()],
    };
    let msg = e.message();
    assert!(msg.starts_with("field `z` not found on type `P` at byte 4 — available fields: x, y"), "{msg}");
    let none = TypeError::FieldNotFound {
        ty_name: "Q".to_string(),
        field_name: "z".to_string(),
        span: sp(0, 1),
        available: vec![],
    };
    assert!(none.message().contains(" — type has no fields"), "{}", none.message());
}

#[test]
fn call_outcomes_by_callee() {
    let undefined = errors_of("fn f() -> i32 { g(1) }");
    assert!(matches!(&undefined[0], TypeError::UndefinedFunction { name, .. } if name == "g"));
    let arity = errors_of("fn g(a: i32) -> i32 { a } fn f() -> i32 { g(1, 2) }");
    assert!(matches!(&arity[0], TypeError::ArgCountMismatch { expected: 1, found: 2, .. }));
    let unit_variant = errors_of("enum E { A, B(i32) } fn f() -> E { A(1) }");
    assert!(matches!(&unit_variant[0], TypeError::UnitVariantCalledAsFunction { .. }));
    assert!(infer_src("enum E { A, B(i32) } fn f() -> E { B(1) }").is_ok());
}

#[test]
fn every_function_and_method_body_is_typed() {
    let src = "struct P { x: i32 } impl P { fn get(self) -> i32 { self.x } fn zero(self) { } } fn main() -> i32 { 1 }";
    let tokens = Lexer::new(src).lex().unwrap();
    let ast = Parser::new(tokens).parse().unwrap();
    let result = typechecker::infer(&ast).unwrap();
    for item in &ast.items {
        match item {
            ofan::ast::Item::Function(f) => assert_eq!(result.type_of(f.body.span), Some(&Ty::I32)),
            ofan::ast::Item::Impl(b) => {
                assert_eq!(result.type_of(b.methods[0].body.span), Some(&Ty::I32));
                assert_eq!(result.type_of(b.methods[1].body.span), Some(&Ty::Unit));
            },
            _ => {},
        }
    }
}

#[test]
fn struct_literal_reports_exactly_the_fields_left_out() {
    let errs = errors_of("struct P { a: i32, b: i32, c: i32 } fn f() -> P { P { b = 1 } }");
    assert!(errs.iter().any(|e| matches!(e, TypeError::MissingStructFields { struct_name, missing, .. }
        if struct_name == "P" && missing == &vec!["a".to_string(), "c".to_string()])), "{errs:?}");
    assert!(infer_src("struct P { a: i32, b: i32 } fn f() -> P { P { b = 1, a = 2 } }").is_ok());
}

#[test]
fn every_arm_after_an_unguarded_wildcard_is_unreachable() {
    let src = "fn f(n: i32) -> i32 { match n { _ => 0, 1 => 1, 2 => 2, } }";
    let tokens = Lexer::new(src).lex().unwrap();
    let ast = Parser::new(tokens).parse().unwrap();
    let errs = typechecker::infer(&ast).err().expect("unreachable arms are fatal");
    let unreachable: Vec<Span> = errs.iter().filter_map(|e| match e {
        TypeError::UnreachableArm { span, .. } => Some(*span),
        _ => None,
    }).collect();
    assert_eq!(unreachable.len(), 2, "{errs:?}");
}

#[test]
fn statement_start_byte_for_codegen_reports() {
    let s = ofan::parser::parse_stmt("  return 1;").unwrap();
    assert_eq!(ofan::codegen::stmt_span_start(&s), 2);
    let c = ofan::parser::parse_stmt("continue;").unwrap();
    assert_eq!(ofan::codegen::stmt_span_start(&c), 0);
}

#[test]
fn struct_name_of_recorded_receiver_types() {
    let src = "struct P { x: i32 } fn f(p: P) -> i32 { p.x }";
    let tokens = Lexer::new(src).lex().unwrap();
    let ast = Parser::new(tokens).parse().unwrap();
    let result = typechecker::infer(&ast).unwrap();
    let ofan::ast::Item::Function(f) = &ast.items[1] else { panic!("function expected") };
    let ofan::ast::Expr::Field { object, .. } = f.body.tail.as_deref().unwrap() else { panic!("field expected") };
    assert_eq!(ofan::codegen::struct_name_of(&result, object.span()), Ok("P".to_string()));
    assert_eq!(
        ofan::codegen::struct_name_of(&result, sp(999, 1000)),
        Err("ICE: expected Named or Ref<Named> type at byte 999, got None".to_string())
    );
}

#[test]
fn plain_program_reports_function_by_function() {
    // The first function checks cleanly; the second binds `k`, then calls
    // `double` with one argument too many.
    let errs = errors_of("fn double(n: i32) -> i32 { n * 2 } fn bad() -> i32 { let k = 2; double(1, k) }");
    assert_eq!(errs.len(), 1);
    assert!(matches!(&errs[0], TypeError::ArgCountMismatch { name, expected: 1, found: 2, .. } if name == "double"));
}

#[test]
fn plain_program_without_fatal_errors_is_ok() {
    let result = infer_src("fn double(n: i32) -> i32 { n * 2 } fn quad(n: i32) -> i32 { let d = double(n); double(d) }")
        .expect("well-typed");
    assert!(result.deferred.is_empty());
}

#[test]
fn plain_program_return_mismatch_after_let() {
    let errs = errors_of("fn f(b: bool) -> i32 { let c = b; c }");
    assert_eq!(errs.len(), 1);
    assert!(matches!(&errs[0], TypeError::ReturnMismatch { expected: Ty::I32, found: Ty::Bool, .. }));
}

#[test]
fn call_with_computed_argument_that_fits() {
    let result = infer_src("fn double(n: i32) -> i32 { n * 2 } fn f() -> i32 { double(double(1) + 1) }");
    assert!(result.is_ok());
}

#[test]
fn call_with_computed_argument_that_does_not_fit() {
    let errs = errors_of("fn double(n: i32) -> i32 { n * 2 } fn f() -> i32 { double(1 < 2) }");
    assert_eq!(errs.len(), 1);
    assert!(matches!(&errs[0], TypeError::Mismatch { expected: Ty::I32, found: Ty::Bool, .. }));
}

#[test]
fn computed_non_bool_condition() {
    let errs = errors_of("fn f(n: i32) -> i32 { if n + 1 { 1 } else { 2 } }");
    assert!(matches!(&errs[0], TypeError::NonBoolCondition { found: Ty::I32, .. }));
}

use ofan::ast::{BinOp, BorrowKind, Expr, Literal, Pattern, RefRegion, Stmt, Type, UnaryOp};
use ofan::parser::{parse_block, parse_expr, parse_stmt, parse_type_str};

fn parse_type(src: &str) -> Result<Type, ofan::parser::ParseError> {
    parse_type_str(src)
}

// ─── Types ───

#[test]
fn parse_type_named() {
    let ty = parse_type("i32").unwrap();
    assert!(matches!(ty, Type::Named { ref name, ref args, .. } if name == "i32" && args.is_empty()));
}

#[test]
fn parse_type_generic() {
    let ty = parse_type("Option<i32>").unwrap();
    if let Type::Named { name, args, .. } = ty {
        assert_eq!(name, "Option");
        assert_eq!(args.len(), 1);
    } else { panic!("expected Named"); }
}

#[test]
fn parse_type_ref() {
    let ty = parse_type("&str").unwrap();
    assert!(matches!(ty, Type::Ref { mutable: false, .. }));
}

#[test]
fn parse_type_ref_mut() {
    let ty = parse_type("&mut str").unwrap();
    assert!(matches!(ty, Type::Ref { mutable: true, .. }));
}

#[test]
fn parse_type_static_ref() {
    let ty = parse_type("&static str").unwrap();
    if let Type::Ref { region: Some(RefRegion::Static), .. } = ty { }
    else { panic!("expected static ref"); }
}

#[test]
fn parse_type_region_tag() {
    let ty = parse_type("&r1 str").unwrap();
    if let Type::Ref { region: Some(RefRegion::Named(r)), .. } = ty { assert_eq!(r, "r1"); }
    else { panic!("expected region tag r1"); }
}

#[test]
fn parse_type_self_ty() {
    let ty = parse_type("Self").unwrap();
    assert!(matches!(ty, Type::SelfTy(_)));
}

#[test]
fn parse_type_ref_self_ty() {
    let ty = parse_type("&Self").unwrap();
    if let Type::Ref { mutable: false, region: None, inner, .. } = ty {
        assert!(matches!(*inner, Type::SelfTy(_)));
    } else { panic!("expected &Self"); }
}

#[test]
fn parse_type_region_ref_self_ty() {
    let ty = parse_type("&r1 Self").unwrap();
    if let Type::Ref { region: Some(RefRegion::Named(r)), inner, .. } = ty {
        assert_eq!(r, "r1");
        assert!(matches!(*inner, Type::SelfTy(_)));
    } else { panic!("expected &r1 Self"); }
}

#[test]
fn parse_type_self_kw_in_type_position_is_error() {
    let err = parse_type("self").unwrap_err();
    let msg = err.message();
    assert!(msg.contains("Self"), "error must mention `Self` (capital): {msg}");
    assert!(msg.contains("receiver"), "error must explain `self` is a receiver, not a type: {msg}");
    assert!(msg.contains("§18"), "error must cite §18: {msg}");
}

// ─── Literals ───

#[test]
fn parse_integer_literal() {
    assert!(matches!(parse_expr("42").unwrap(), Expr::Literal(Literal::Integer(42), _)));
}

#[test]
fn parse_float_literal() {
    assert!(matches!(parse_expr("3.14").unwrap(), Expr::Literal(Literal::Float(_), _)));
}

#[test]
fn parse_bool_literals() {
    assert!(matches!(parse_expr("true").unwrap(), Expr::Literal(Literal::Bool(true), _)));
    assert!(matches!(parse_expr("false").unwrap(), Expr::Literal(Literal::Bool(false), _)));
}

#[test]
fn parse_string_literal() {
    assert!(matches!(parse_expr(r#""hello""#).unwrap(), Expr::Literal(Literal::Str(ref s), _) if s == "hello"));
}

#[test]
fn parse_char_literal() {
    assert!(matches!(parse_expr("'x'").unwrap(), Expr::Literal(Literal::Char('x'), _)));
}

#[test]
fn parse_ident() {
    assert!(matches!(parse_expr("foo").unwrap(), Expr::Ident(ref n, _) if n == "foo"));
}

// ─── Unary ───

#[test]
fn parse_unary_neg() {
    assert!(matches!(parse_expr("-5").unwrap(), Expr::Unary { op: UnaryOp::Neg, .. }));
}

#[test]
fn parse_unary_not() {
    assert!(matches!(parse_expr("!flag").unwrap(), Expr::Unary { op: UnaryOp::Not, .. }));
}

#[test]
fn parse_unary_bitnot() {
    assert!(matches!(parse_expr("~mask").unwrap(), Expr::Unary { op: UnaryOp::BitNot, .. }));
}

#[test]
fn parse_borrow() {
    assert!(matches!(parse_expr("&x").unwrap(), Expr::Unary { op: UnaryOp::Borrow, .. }));
}

#[test]
fn parse_borrow_mut() {
    assert!(matches!(parse_expr("&mut x").unwrap(), Expr::Unary { op: UnaryOp::BorrowMut, .. }));
}

// ─── Binary / precedence ───

#[test]
fn parse_binary_add() {
    assert!(matches!(parse_expr("a + b").unwrap(), Expr::Binary { op: BinOp::Add, .. }));
}

#[test]
fn parse_precedence_mul_over_add() {
    let expr = parse_expr("a + b * c").unwrap();
    if let Expr::Binary { op: BinOp::Add, right, .. } = expr {
        assert!(matches!(*right, Expr::Binary { op: BinOp::Mul, .. }));
    } else { panic!("expected Add at top"); }
}

#[test]
fn parse_precedence_logical() {
    let expr = parse_expr("a || b && c").unwrap();
    if let Expr::Binary { op: BinOp::Or, right, .. } = expr {
        assert!(matches!(*right, Expr::Binary { op: BinOp::And, .. }));
    } else { panic!("expected Or at top"); }
}

#[test]
fn parse_precedence_comparison_over_logical() {
    let expr = parse_expr("a && b == c").unwrap();
    if let Expr::Binary { op: BinOp::And, right, .. } = expr {
        assert!(matches!(*right, Expr::Binary { op: BinOp::Eq, .. }));
    } else { panic!("expected And at top"); }
}

#[test]
fn parse_grouped_expr() {
    assert!(matches!(parse_expr("(a + b) * c").unwrap(), Expr::Binary { op: BinOp::Mul, .. }));
}

#[test]
fn parse_fallback_operator() {
    assert!(matches!(parse_expr("opt ?: 0").unwrap(), Expr::Binary { op: BinOp::Fallback, .. }));
}

#[test]
fn parse_fallback_left_assoc() {
    let expr = parse_expr("a ?: b ?: c").unwrap();
    if let Expr::Binary { op: BinOp::Fallback, left, .. } = expr {
        assert!(matches!(*left, Expr::Binary { op: BinOp::Fallback, .. }));
    } else { panic!("expected Fallback at top"); }
}

// ─── Postfix ───

#[test]
fn parse_propagate() {
    assert!(matches!(parse_expr("result?").unwrap(), Expr::Propagate { .. }));
}

#[test]
fn parse_field_access() {
    assert!(matches!(parse_expr("obj.field").unwrap(), Expr::Field { ref field, .. } if field == "field"));
}

#[test]
fn parse_method_call() {
    assert!(matches!(parse_expr("obj.method(a, b)").unwrap(), Expr::MethodCall { ref method, .. } if method == "method"));
}

#[test]
fn parse_function_call() {
    assert!(matches!(parse_expr("foo(1, 2)").unwrap(), Expr::Call { .. }));
}

#[test]
fn parse_cast() {
    assert!(matches!(parse_expr("x as f64").unwrap(), Expr::Cast { .. }));
}

#[test]
fn parse_chained_postfix() {
    let expr = parse_expr("f()?.field").unwrap();
    if let Expr::Field { object, .. } = &expr {
        assert!(matches!(**object, Expr::Propagate { .. }));
    } else { panic!("expected Field at top"); }
}

// ─── Statements ───

#[test]
fn parse_let_stmt() {
    let stmt = parse_stmt("let x: i32 = 5;").unwrap();
    assert!(matches!(stmt, Stmt::Let { mutable: false, ref name, ty: Some(_), .. } if name == "x"));
}

#[test]
fn parse_let_mut_stmt() {
    let stmt = parse_stmt("let mut count: i32 = 0;").unwrap();
    assert!(matches!(stmt, Stmt::Let { mutable: true, ref name, .. } if name == "count"));
}

#[test]
fn parse_let_inferred_type() {
    let stmt = parse_stmt("let x = 5;").unwrap();
    assert!(matches!(stmt, Stmt::Let { ty: None, .. }));
}

#[test]
fn parse_const_stmt() {
    let stmt = parse_stmt("const MAX: i32 = 100;").unwrap();
    assert!(matches!(stmt, Stmt::Const { ref name, .. } if name == "MAX"));
}

#[test]
fn parse_return_stmt() {
    let stmt = parse_stmt("return 42;").unwrap();
    assert!(matches!(stmt, Stmt::Return { value: Some(_), .. }));
}

#[test]
fn parse_return_void() {
    let stmt = parse_stmt("return;").unwrap();
    assert!(matches!(stmt, Stmt::Return { value: None, .. }));
}

#[test]
fn parse_break_value() {
    let stmt = parse_stmt("break 5;").unwrap();
    assert!(matches!(stmt, Stmt::Break { value: Some(_), .. }));
}

#[test]
fn parse_continue_stmt() {
    let stmt = parse_stmt("continue;").unwrap();
    assert!(matches!(stmt, Stmt::Continue { .. }));
}

#[test]
fn parse_expr_stmt() {
    let stmt = parse_stmt("foo();").unwrap();
    assert!(matches!(stmt, Stmt::Expr { has_semicolon: true, .. }));
}

#[test]
fn parse_expr_stmt_no_semicolon_at_eof() {
    let stmt = parse_stmt("foo()").unwrap();
    assert!(matches!(stmt, Stmt::Expr { has_semicolon: false, .. }));
}

#[test]
fn block_expr_stmt_with_semicolon() {
    let block = parse_block("{ foo(); }").unwrap();
    assert!(block.tail.is_none());
    assert!(matches!(block.stmts[0], Stmt::Expr { has_semicolon: true, .. }));
}

#[test]
fn parse_assignment() {
    let stmt = parse_stmt("x = 5;").unwrap();
    assert!(matches!(stmt, Stmt::Assign { op: None, .. }));
}

#[test]
fn parse_compound_assignment() {
    let stmt = parse_stmt("x += 1;").unwrap();
    assert!(matches!(stmt, Stmt::Assign { op: Some(BinOp::Add), .. }));
}

// ─── Control flow ───

#[test]
fn parse_if_expr() {
    assert!(matches!(parse_expr("if x { 1 }").unwrap(), Expr::If { else_branch: None, .. }));
}

#[test]
fn parse_if_else_expr() {
    assert!(matches!(parse_expr("if x { 1 } else { 2 }").unwrap(), Expr::If { else_branch: Some(_), .. }));
}

#[test]
fn parse_if_else_if_chain() {
    let expr = parse_expr("if a { 1 } else if b { 2 } else { 3 }").unwrap();
    if let Expr::If { else_branch: Some(branch), .. } = expr {
        assert!(matches!(*branch, Expr::If { .. }));
    } else { panic!("expected else branch"); }
}

#[test]
fn parse_while_expr() {
    assert!(matches!(parse_expr("while cond { }").unwrap(), Expr::While { .. }));
}

#[test]
fn parse_loop_expr() {
    assert!(matches!(parse_expr("loop { break 42; }").unwrap(), Expr::Loop { .. }));
}

#[test]
fn parse_for_bare() {
    let expr = parse_expr("for item in items { }").unwrap();
    if let Expr::For { borrow, .. } = expr {
        assert_eq!(borrow, None);
    } else { panic!("expected For"); }
}

#[test]
fn parse_for_borrow_shared() {
    let expr = parse_expr("for item in &items { }").unwrap();
    if let Expr::For { borrow, .. } = expr {
        assert_eq!(borrow, Some(BorrowKind::Shared));
    } else { panic!("expected For"); }
}

#[test]
fn parse_for_borrow_mut() {
    let expr = parse_expr("for item in &mut items { }").unwrap();
    if let Expr::For { borrow, .. } = expr {
        assert_eq!(borrow, Some(BorrowKind::Mut));
    } else { panic!("expected For"); }
}

// ─── Match ───

#[test]
fn parse_match_basic() {
    let expr = parse_expr("match opt { Some(x) => x, None => 0, }").unwrap();
    if let Expr::Match { arms, .. } = expr {
        assert_eq!(arms.len(), 2);
    } else { panic!("expected Match"); }
}

#[test]
fn parse_match_wildcard() {
    let expr = parse_expr("match n { 0 => zero(), _ => other(), }").unwrap();
    if let Expr::Match { arms, .. } = expr {
        assert!(matches!(arms[1].pattern, Pattern::Wildcard(_)));
    } else { panic!("expected Match"); }
}

#[test]
fn parse_match_guard() {
    let src = "match opt { Some(n) if n > 0 => pos(n), Some(n) => neg(n), None => zero(), }";
    let expr = parse_expr(src).unwrap();
    if let Expr::Match { arms, .. } = expr {
        assert!(arms[0].guard.is_some());
        assert!(arms[1].guard.is_none());
    } else { panic!("expected Match"); }
}

#[test]
fn parse_match_or_pattern() {
    let expr = parse_expr("match d { North | South => v(), East | West => h(), }").unwrap();
    if let Expr::Match { arms, .. } = expr {
        assert!(matches!(arms[0].pattern, Pattern::Or(_, _)));
    } else { panic!("expected Match"); }
}

#[test]
fn parse_match_nested_pattern() {
    let expr = parse_expr("match opt { Some(Some(x)) => x, Some(None) => 0, None => 1, }").unwrap();
    if let Expr::Match { arms, .. } = expr {
        assert_eq!(arms.len(), 3);
    } else { panic!("expected Match"); }
}

#[test]
fn parse_match_block_arm_body() {
    let expr = parse_expr("match x { 1 => { let y = 2; y }, _ => 0, }").unwrap();
    if let Expr::Match { arms, .. } = expr {
        assert!(matches!(arms[0].body, Expr::Block(_)));
    } else { panic!("expected Match"); }
}

#[test]
fn parse_match_no_trailing_comma() {
    let expr = parse_expr("match x { 1 => 1, _ => 0 }").unwrap();
    if let Expr::Match { arms, .. } = expr {
        assert_eq!(arms.len(), 2);
    } else { panic!("expected Match"); }
}

// ─── Struct literals and negative patterns ───

#[test]
fn parse_struct_literal_fields() {
    let expr = parse_expr("Point { x = 1, y = 2, }").unwrap();
    if let Expr::StructLit { name, fields, .. } = expr {
        assert_eq!(name, "Point");
        assert_eq!(fields.len(), 2);
        assert_eq!(fields[1].name, "y");
    } else { panic!("expected StructLit"); }
}

#[test]
fn parse_condition_name_before_brace_is_not_struct_literal() {
    let expr = parse_expr("if ready { go() }").unwrap();
    if let Expr::If { condition, .. } = expr {
        assert!(matches!(*condition, Expr::Ident(ref n, _) if n == "ready"));
    } else { panic!("expected If"); }
}

#[test]
fn parse_negative_literal_patterns() {
    let expr = parse_expr("match x { -1 => 0, -2.5 => 1, _ => 2 }").unwrap();
    if let Expr::Match { arms, .. } = expr {
        assert!(matches!(arms[0].pattern, Pattern::Literal(Literal::Integer(-1), _)));
        assert!(matches!(arms[1].pattern, Pattern::Literal(Literal::Float(ref t), _) if t.parse::<f64>() == Ok(-2.5)));
    } else { panic!("expected Match"); }
}

#[test]
fn parse_error_message_names_expectation() {
    let err = parse_expr("+").unwrap_err();
    assert!(err.message().contains("expected an expression"), "{}", err.message());
}

#[test]
fn parse_empty_struct_literal() {
    let e = parse_expr("Point { }").unwrap();
    match e {
        Expr::StructLit { name, fields, span, .. } => {
            assert_eq!(name, "Point");
            assert!(fields.is_empty());
            assert_eq!(span.start, 0);
            assert_eq!(span.end, 9);
        },
        _ => panic!("expected a struct literal"),
    }
}

#[test]
fn parse_const_with_literal_init() {
    let stmt = parse_stmt("const LIMIT: i32 = 7;").unwrap();
    match stmt {
        Stmt::Const { name, ty, init, .. } => {
            assert_eq!(name, "LIMIT");
            assert!(matches!(ty, Type::Named { ref name, ref args, .. } if name == "i32" && args.is_empty()));
            assert!(matches!(*init, Expr::Literal(Literal::Integer(7), _)));
        },
        _ => panic!("expected a const"),
    }
}

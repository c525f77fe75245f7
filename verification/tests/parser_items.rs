use ofan::ast::{Item, Stmt, Type};
use ofan::lexer::Lexer;
use ofan::parser::{parse_block, parse_fn, parse_impl, Parser};

// --- Function declarations ---

#[test]
fn parse_fn_no_params() {
    let f = parse_fn("fn hello() { }").unwrap();
    assert_eq!(f.name, "hello");
    assert!(f.params.is_empty());
    assert!(f.return_ty.is_none());
}

#[test]
fn parse_fn_with_params_and_return() {
    let f = parse_fn("fn add(a: i32, b: i32) -> i32 { a + b }").unwrap();
    assert_eq!(f.name, "add");
    assert_eq!(f.params.len(), 2);
    assert!(f.return_ty.is_some());
}

#[test]
fn parse_fn_generic() {
    let f = parse_fn("fn identity<T>(x: T) -> T { x }").unwrap();
    assert_eq!(f.generic_params, vec!["T"]);
    assert_eq!(f.params.len(), 1);
}

#[test]
fn parse_fn_body_let_return() {
    let f = parse_fn("fn double(n: i32) -> i32 { let r: i32 = n * 2; return r; }").unwrap();
    assert_eq!(f.body.stmts.len(), 2);
    assert!(f.body.tail.is_none());
}

#[test]
fn parse_fn_body_tail_expr() {
    let f = parse_fn("fn double(n: i32) -> i32 { n * 2 }").unwrap();
    assert_eq!(f.body.stmts.len(), 0);
    assert!(f.body.tail.is_some());
}

// --- Integration ---

#[test]
fn parse_factorial_function() {
    let src = "fn factorial(n: i32) -> i32 { match n { 0 => 1, n => n * factorial(n), } }";
    let f = parse_fn(src).unwrap();
    assert_eq!(f.name, "factorial");
    assert!(f.body.tail.is_some());
}

#[test]
fn parse_loop_break_value() {
    let src = "fn find() -> i32 { let r: i32 = loop { break 42; }; r }";
    let f = parse_fn(src).unwrap();
    assert_eq!(f.body.stmts.len(), 1);
}

#[test]
fn parse_full_ast() {
    let src = "fn hello() { } fn world() -> i32 { 42 }";
    let tokens = Lexer::new(src).lex().unwrap();
    let ast = Parser::new(tokens).parse().unwrap();
    assert_eq!(ast.items.len(), 2);
}

// --- Self receivers ---

#[test]
fn parse_fn_self_receiver() {
    let f = parse_fn("fn foo(self) -> i32 { 42 }").unwrap();
    assert_eq!(f.params.len(), 1);
    assert_eq!(f.params[0].name, "self");
    assert!(!f.params[0].consuming);
    assert!(matches!(f.params[0].ty, Type::SelfTy(_)));
}

#[test]
fn parse_fn_move_self_receiver() {
    let f = parse_fn("fn into_val(move self) -> i32 { 42 }").unwrap();
    assert_eq!(f.params.len(), 1);
    assert_eq!(f.params[0].name, "self");
    assert!(f.params[0].consuming);
    assert!(matches!(f.params[0].ty, Type::SelfTy(_)));
}

#[test]
fn parse_fn_ref_self_is_error() {
    let err = parse_fn("fn foo(&self) { }").unwrap_err();
    let msg = err.message();
    assert!(msg.contains("§18"), "must cite §18: {msg}");
    assert!(msg.contains("infer"), "must mention inference: {msg}");
}

#[test]
fn parse_fn_ref_mut_self_is_error() {
    let err = parse_fn("fn foo(&mut self) { }").unwrap_err();
    let msg = err.message();
    assert!(msg.contains("§18"), "must cite §18: {msg}");
    assert!(msg.contains("infer"), "must mention inference: {msg}");
}

// --- impl blocks ---

#[test]
fn parse_impl_empty() {
    let b = parse_impl("impl Foo { }").unwrap();
    assert_eq!(b.ty_name, "Foo");
    assert!(b.methods.is_empty());
}

#[test]
fn parse_impl_single_method() {
    let b = parse_impl("impl Foo { fn bar(self) -> i32 { 42 } }").unwrap();
    assert_eq!(b.methods.len(), 1);
    let m = &b.methods[0];
    assert_eq!(m.name, "bar");
    assert_eq!(m.params.len(), 1);
    assert_eq!(m.params[0].name, "self");
    assert!(!m.params[0].consuming);
    assert!(matches!(m.params[0].ty, Type::SelfTy(_)));
}

#[test]
fn parse_impl_move_self_method() {
    let b = parse_impl("impl Foo { fn consume(move self) { } }").unwrap();
    assert_eq!(b.methods.len(), 1);
    assert!(b.methods[0].params[0].consuming);
    assert!(matches!(b.methods[0].params[0].ty, Type::SelfTy(_)));
}

#[test]
fn parse_impl_associated_fn_self_return() {
    // An associated function: no receiver, `Self` in return position.
    let b = parse_impl("impl Foo { fn default() -> Self { 0 } }").unwrap();
    assert_eq!(b.methods.len(), 1);
    let m = &b.methods[0];
    assert_eq!(m.name, "default");
    assert!(m.params.is_empty());
    assert!(matches!(m.return_ty, Some(Type::SelfTy(_))));
}

#[test]
fn parse_impl_mixed_method_and_assoc_fn() {
    let src = "impl Entity { fn update(self) { } fn default() -> Self { 0 } }";
    let b = parse_impl(src).unwrap();
    assert_eq!(b.methods.len(), 2);
    assert_eq!(b.methods[0].params.len(), 1);
    assert!(matches!(b.methods[0].params[0].ty, Type::SelfTy(_)));
    assert!(b.methods[1].params.is_empty());
}

#[test]
fn parse_impl_non_fn_rejected() {
    let err = parse_impl("impl Foo { let x = 5; }").unwrap_err();
    let msg = err.message();
    assert!(msg.contains("§22"), "must cite §22: {msg}");
}

#[test]
fn parse_impl_integrated_with_top_level_fn() {
    let src = "fn free() -> i32 { 1 } impl Foo { fn bar(self) { } }";
    let tokens = Lexer::new(src).lex().unwrap();
    let ast = Parser::new(tokens).parse().unwrap();
    assert_eq!(ast.items.len(), 2);
    assert!(matches!(ast.items[0], Item::Function(_)));
    assert!(matches!(ast.items[1], Item::Impl(_)));
}

#[test]
fn block_tail_expr_no_semicolon() {
    let block = parse_block("{ foo() }").unwrap();
    assert!(block.tail.is_some());
    assert!(block.stmts.is_empty());
}

// --- Type declarations ---

#[test]
fn parse_struct_declaration_with_modifier() {
    let src = "move struct Sprite<T> { id: i32, tag: T, }";
    let def = ofan::parser::parse_struct(src).unwrap().unwrap();
    assert_eq!(def.name, "Sprite");
    assert_eq!(def.generic_params, vec!["T"]);
    assert_eq!(def.fields.len(), 2);
    assert_eq!(def.fields[1].name, "tag");
    assert_eq!(def.copy_move, Some(ofan::ast::CopyMove::Move));
}

#[test]
fn parse_enum_declaration_variants() {
    let src = "copy enum Shape { Circle(f64), Rect(f64, f64), Empty }";
    let tokens = Lexer::new(src).lex().unwrap();
    let ast = Parser::new(tokens).parse().unwrap();
    match &ast.items[0] {
        Item::Enum(e) => {
            assert_eq!(e.name, "Shape");
            assert_eq!(e.variants.len(), 3);
            assert_eq!(e.variants[1].fields.len(), 2);
            assert!(e.variants[2].fields.is_empty());
            assert_eq!(e.copy_move, Some(ofan::ast::CopyMove::Copy));
        },
        _ => panic!("expected an enum"),
    }
}

#[test]
fn parse_struct_helper_on_non_struct_is_none() {
    assert!(ofan::parser::parse_struct("fn f() { }").unwrap().is_none());
}

#[test]
fn parse_top_level_statement_rejected() {
    let tokens = Lexer::new("let x = 1;").lex().unwrap();
    let err = Parser::new(tokens).parse().unwrap_err();
    assert!(err.message().contains("top level"), "{}", err.message());
}

#[test]
fn parse_block_keeps_semicolon_law() {
    let block = parse_block("{ if a { 1 } else { 2 } foo(); bar() }").unwrap();
    assert_eq!(block.stmts.len(), 2);
    for s in &block.stmts {
        if let Stmt::Expr { has_semicolon, .. } = s {
            assert!(*has_semicolon);
        }
    }
    assert!(block.tail.is_some());
}

#[test]
fn parse_error_message_text() {
    let e = ofan::parser::ParseError::UnexpectedToken {
        span: ofan::lexer::Span { start: 3, end: 4 },
        found: "`;`".to_string(),
        expected: "`)`".to_string(),
        suggestion: None,
    };
    assert_eq!(e.message(), "unexpected token at byte 3: expected `)`, found `;`");
    let eof = ofan::parser::ParseError::UnexpectedEof { expected: "`}`".to_string(), suggestion: Some("close the block".to_string()) };
    assert_eq!(eof.message(), "unexpected end of file: expected `}` — close the block");
}

// --- Empty declarations and empty sources ---

#[test]
fn parse_empty_source_has_no_items() {
    let tokens = Lexer::new("").lex().unwrap();
    let ast = Parser::new(tokens).parse().unwrap();
    assert!(ast.items.is_empty());
}

#[test]
fn parse_single_empty_fn_item() {
    let tokens = Lexer::new("fn main() { }").lex().unwrap();
    let ast = Parser::new(tokens).parse().unwrap();
    assert_eq!(ast.items.len(), 1);
    match &ast.items[0] {
        Item::Function(f) => {
            assert_eq!(f.name, "main");
            assert!(f.generic_params.is_empty());
            assert!(f.params.is_empty());
            assert!(f.return_ty.is_none());
            assert!(f.body.stmts.is_empty());
            assert!(f.body.tail.is_none());
        },
        _ => panic!("expected a function"),
    }
}

#[test]
fn parse_empty_struct_and_enum_declarations() {
    let tokens = Lexer::new("struct Unit { } enum Never { }").lex().unwrap();
    let ast = Parser::new(tokens).parse().unwrap();
    assert_eq!(ast.items.len(), 2);
    match &ast.items[0] {
        Item::Struct(d) => {
            assert_eq!(d.name, "Unit");
            assert!(d.fields.is_empty());
            assert!(d.generic_params.is_empty());
            assert!(d.copy_move.is_none());
            assert_eq!(d.span.start, 0);
            assert_eq!(d.span.end, 15);
        },
        _ => panic!("expected a struct"),
    }
    match &ast.items[1] {
        Item::Enum(d) => {
            assert_eq!(d.name, "Never");
            assert!(d.variants.is_empty());
        },
        _ => panic!("expected an enum"),
    }
}

#[test]
fn parse_fn_single_generic_param() {
    let f = parse_fn("fn id<T>() { }").unwrap();
    assert_eq!(f.generic_params, vec!["T"]);
    let g = parse_fn("fn none<>() { }").unwrap();
    assert!(g.generic_params.is_empty());
}

#[test]
fn parse_sequence_of_empty_items() {
    let tokens = Lexer::new("fn a() { } struct S { } enum E { } impl S { }").lex().unwrap();
    let ast = Parser::new(tokens).parse().unwrap();
    assert_eq!(ast.items.len(), 4);
    assert!(matches!(ast.items[0], Item::Function(_)));
    assert!(matches!(ast.items[1], Item::Struct(_)));
    assert!(matches!(ast.items[2], Item::Enum(_)));
    assert!(matches!(ast.items[3], Item::Impl(_)));
}

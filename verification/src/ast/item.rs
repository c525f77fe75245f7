use vstd::prelude::*;
use crate::lexer::Span;
use super::{Block, Type};

verus! {

/// Top-level output of the parser: an ordered list of top-level items.
#[derive(Debug, PartialEq)]
pub struct Ast {
    pub items: Vec<Item>,
}

#[derive(Debug, PartialEq)]
pub enum Item {
    Function(FunctionDef),
    Impl(ImplBlock),
    Struct(StructDef),
    Enum(EnumDef),
}

/// `impl TypeName { fn ... }` — methods and associated functions of a type.
#[derive(Debug, PartialEq)]
pub struct ImplBlock {
    pub ty_name: String,
    pub ty_name_span: Span,
    pub methods: Vec<FunctionDef>,
    pub span: Span,
}

/// `fn name<params>(args) -> RetType { body }`
#[derive(Debug, PartialEq)]
pub struct FunctionDef {
    pub name: String,
    pub name_span: Span,
    /// Type parameters and region tags.
    pub generic_params: Vec<String>,
    pub params: Vec<Param>,
    pub return_ty: Option<Type>,
    pub body: Block,
    pub span: Span,
}

#[derive(Debug, PartialEq)]
pub struct Param {
    pub name: String,
    pub name_span: Span,
    pub ty: Type,
    /// `move self`
    pub consuming: bool,
    pub span: Span,
}

/// Explicit copy/move modifier on a struct or enum declaration.
#[derive(Debug, Clone, Copy, PartialEq, Eq, Structural)]
pub enum CopyMove {
    Copy,
    Move,
}

/// `[copy|move] struct Name<params> { field: Type, ... }`
#[derive(Debug, PartialEq)]
pub struct StructDef {
    pub name: String,
    pub name_span: Span,
    pub generic_params: Vec<String>,
    pub fields: Vec<StructField>,
    pub copy_move: Option<CopyMove>,
    pub span: Span,
}

#[derive(Debug, PartialEq)]
pub struct StructField {
    pub name: String,
    pub name_span: Span,
    pub ty: Type,
    pub span: Span,
}

/// `[copy|move] enum Name<params> { Variant, Variant(Type, ...), ... }`
#[derive(Debug, PartialEq)]
pub struct EnumDef {
    pub name: String,
    pub name_span: Span,
    pub generic_params: Vec<String>,
    pub variants: Vec<EnumVariant>,
    pub copy_move: Option<CopyMove>,
    pub span: Span,
}

#[derive(Debug, PartialEq)]
pub struct EnumVariant {
    pub name: String,
    pub name_span: Span,
    /// Payload types; empty for a unit variant.
    pub fields: Vec<Type>,
    pub span: Span,
}

} // verus!

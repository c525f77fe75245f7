use vstd::prelude::*;
use crate::text::{dec_text, push_str, push_usize};

verus! {

/// Why code generation failed.
#[derive(Debug, PartialEq)]
pub enum CodegenError {
    /// An error reported by the LLVM back end.
    Llvm(String),
    /// A construct that checks but cannot be lowered yet; `byte` is its
    /// offset in the source.
    NotYetLowered { feature: String, byte: usize },
    /// An internal compiler error: a checker invariant broken at code
    /// generation time — always a compiler bug.
    Ice(String),
    /// The source has no `fn main` entry point.
    EntryFnMissing,
}

/// The diagnostic text of a code generation error.
pub open spec fn codegen_error_text(e: CodegenError) -> Seq<char> {
    match e {
        CodegenError::Llvm(m) => "LLVM error: "@ + m@,
        CodegenError::NotYetLowered { feature, byte } => "not yet lowerable: "@ + feature@ + " (at byte "@
            + dec_text(byte as nat) + ") — this construct is planned; track progress in docs/PROGRESS.md"@,
        CodegenError::Ice(m) => "internal compiler error: "@ + m@
            + " — please file a bug at github.com/ofan-lang/Ofan/issues"@,
        CodegenError::EntryFnMissing =>
            "no entry function found — add `fn main() -> i32 { ... }` to your source file"@,
    }
}

impl CodegenError {
    /// The human-readable diagnostic for this error.
    pub fn message(&self) -> (r: String)
        ensures
            r@ == codegen_error_text(*self),
    {
        let mut s = String::new();
        match self {
            CodegenError::Llvm(m) => {
                push_str(&mut s, "LLVM error: ");
                push_str(&mut s, m.as_str());
            },
            CodegenError::NotYetLowered { feature, byte } => {
                push_str(&mut s, "not yet lowerable: ");
                push_str(&mut s, feature.as_str());
                push_str(&mut s, " (at byte ");
                push_usize(&mut s, *byte);
                push_str(&mut s, ") — this construct is planned; track progress in docs/PROGRESS.md");
            },
            CodegenError::Ice(m) => {
                push_str(&mut s, "internal compiler error: ");
                push_str(&mut s, m.as_str());
                push_str(&mut s, " — please file a bug at github.com/ofan-lang/Ofan/issues");
            },
            CodegenError::EntryFnMissing => {
                push_str(&mut s, "no entry function found — add `fn main() -> i32 { ... }` to your source file");
            },
        }
        s
    }
}

/// A bare message converts to an internal compiler error.
impl From<String> for CodegenError {
    fn from(s: String) -> (r: CodegenError)
        ensures
            r == CodegenError::Ice(s),
    {
        CodegenError::Ice(s)
    }
}

impl vstd::std_specs::convert::FromSpecImpl<String> for CodegenError {
    open spec fn obeys_from_spec() -> bool {
        true
    }

    open spec fn from_spec(s: String) -> CodegenError {
        CodegenError::Ice(s)
    }
}

} // verus!

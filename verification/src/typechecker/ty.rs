//! Resolved types: the checker's internal form of `ast::Type`.
use vstd::prelude::*;
use crate::text::{dec_text, push_str, push_u64, same_text};

verus! {

/// Internal type representation used throughout the type checker: the
/// resolved form after names are looked up and primitives collapsed.
#[derive(Debug, PartialEq)]
pub enum Ty {
    I32,
    F64,
    Bool,
    Char,
    /// The `str` primitive (used behind a reference in practice).
    Str,
    /// Unit type `()`: the type of void functions and discarded statements.
    Unit,
    /// Reference type `&[mut] [region] T`.
    Ref { mutable: bool, region: Option<Region>, inner: Box<Ty> },
    /// A user-defined type (struct or enum), by name.
    Named(String),
    /// An unsubstituted generic type parameter (`T`, `E`).
    Param(String),
    /// A unification variable; never constructed by the current checker.
    TyVar(u32),
    /// Error sentinel for deferred or failed sub-expressions: any comparison
    /// against it is suppressed to avoid cascading diagnostics.
    Error,
}

/// Region (lifetime) of a reference type.
#[derive(Debug, Clone, PartialEq)]
pub enum Region {
    /// A named region tag such as `r1`.
    Named(String),
    /// `&static`.
    Static,
}

/// The mathematical value of a region: names as character sequences.
pub enum RegionV {
    Named(Seq<char>),
    Static,
}

/// The mathematical value of a type: names as character sequences.
pub enum TyV {
    I32,
    F64,
    Bool,
    Char,
    Str,
    Unit,
    Ref { mutable: bool, region: Option<RegionV>, inner: Box<TyV> },
    Named(Seq<char>),
    Param(Seq<char>),
    TyVar(u32),
    Error,
}

pub open spec fn region_view(r: Region) -> RegionV {
    match r {
        Region::Named(n) => RegionV::Named(n@),
        Region::Static => RegionV::Static,
    }
}

pub open spec fn opt_region_view(r: Option<Region>) -> Option<RegionV> {
    match r {
        Some(x) => Some(region_view(x)),
        None => None,
    }
}

/// The value of a type.
pub open spec fn ty_view(t: Ty) -> TyV
    decreases t,
{
    match t {
        Ty::I32 => TyV::I32,
        Ty::F64 => TyV::F64,
        Ty::Bool => TyV::Bool,
        Ty::Char => TyV::Char,
        Ty::Str => TyV::Str,
        Ty::Unit => TyV::Unit,
        Ty::Ref { mutable, region, inner } =>
            TyV::Ref { mutable, region: opt_region_view(region), inner: Box::new(ty_view(*inner)) },
        Ty::Named(n) => TyV::Named(n@),
        Ty::Param(n) => TyV::Param(n@),
        Ty::TyVar(i) => TyV::TyVar(i),
        Ty::Error => TyV::Error,
    }
}

impl View for Ty {
    type V = TyV;

    open spec fn view(&self) -> TyV {
        ty_view(*self)
    }
}

/// How diagnostics spell a type: `i32`, `&mut Point`, `?0`, `<error>`.
pub open spec fn ty_text(t: TyV) -> Seq<char>
    decreases t,
{
    match t {
        TyV::I32 => "i32"@,
        TyV::F64 => "f64"@,
        TyV::Bool => "bool"@,
        TyV::Char => "char"@,
        TyV::Str => "str"@,
        TyV::Unit => "unit"@,
        TyV::Named(n) => n,
        TyV::Param(n) => n,
        TyV::Ref { mutable, inner, .. } => (if mutable { "&mut "@ } else { "&"@ }) + ty_text(*inner),
        TyV::TyVar(id) => "?"@ + dec_text(id as nat),
        TyV::Error => "<error>"@,
    }
}

/// The structural spelling of a region: `None`, `Some(Static)`,
/// `Some(Named("r"))`.
pub open spec fn region_debug(r: Option<RegionV>) -> Seq<char> {
    match r {
        None => "None"@,
        Some(RegionV::Static) => "Some(Static)"@,
        Some(RegionV::Named(n)) => "Some(Named(\""@ + n + "\"))"@,
    }
}

/// The structural spelling of a type: `I32`, `Named("Point")`,
/// `Ref { mutable: false, region: None, inner: Str }`.
pub open spec fn ty_debug(t: TyV) -> Seq<char>
    decreases t,
{
    match t {
        TyV::I32 => "I32"@,
        TyV::F64 => "F64"@,
        TyV::Bool => "Bool"@,
        TyV::Char => "Char"@,
        TyV::Str => "Str"@,
        TyV::Unit => "Unit"@,
        TyV::Named(n) => "Named(\""@ + n + "\")"@,
        TyV::Param(n) => "Param(\""@ + n + "\")"@,
        TyV::Ref { mutable, region, inner } => "Ref { mutable: "@ + (if mutable { "true"@ } else { "false"@ })
            + ", region: "@ + region_debug(region) + ", inner: "@ + ty_debug(*inner) + " }"@,
        TyV::TyVar(id) => "TyVar("@ + dec_text(id as nat) + ")"@,
        TyV::Error => "Error"@,
    }
}

/// Resolved signature of a function or method, used for call-site checking.
#[derive(Debug)]
pub struct FnSig {
    /// Parameter types; for methods the `self` receiver is not included.
    pub params: Vec<Ty>,
    pub return_ty: Ty,
    /// The function has generic parameters; call-site checking is deferred.
    pub is_generic: bool,
    /// The method's receiver is `move self` (always false for free functions).
    pub self_consuming: bool,
}

impl Region {
    /// An identical copy of this region.
    pub fn dup(&self) -> (r: Region)
        ensures
            r == *self,
    {
        match self {
            Region::Named(n) => Region::Named(n.clone()),
            Region::Static => Region::Static,
        }
    }

    /// Equality of regions by value.
    pub fn same(&self, other: &Region) -> (r: bool)
        ensures
            r == (region_view(*self) == region_view(*other)),
    {
        match (self, other) {
            (Region::Named(a), Region::Named(b)) => same_text(a, b),
            (Region::Static, Region::Static) => true,
            _ => false,
        }
    }
}

impl Ty {
    /// An identical copy of this type.
    pub fn dup(&self) -> (r: Ty)
        ensures
            r == *self,
        decreases self,
    {
        match self {
            Ty::I32 => Ty::I32,
            Ty::F64 => Ty::F64,
            Ty::Bool => Ty::Bool,
            Ty::Char => Ty::Char,
            Ty::Str => Ty::Str,
            Ty::Unit => Ty::Unit,
            Ty::Ref { mutable, region, inner } => {
                let region = match region {
                    Some(g) => Some(g.dup()),
                    None => None,
                };
                Ty::Ref { mutable: *mutable, region, inner: Box::new((**inner).dup()) }
            },
            Ty::Named(n) => Ty::Named(n.clone()),
            Ty::Param(n) => Ty::Param(n.clone()),
            Ty::TyVar(i) => Ty::TyVar(*i),
            Ty::Error => Ty::Error,
        }
    }

    /// Equality of types by value.
    pub fn same(&self, other: &Ty) -> (r: bool)
        ensures
            r == (self@ == other@),
        decreases self,
    {
        match (self, other) {
            (Ty::I32, Ty::I32) => true,
            (Ty::F64, Ty::F64) => true,
            (Ty::Bool, Ty::Bool) => true,
            (Ty::Char, Ty::Char) => true,
            (Ty::Str, Ty::Str) => true,
            (Ty::Unit, Ty::Unit) => true,
            (Ty::Error, Ty::Error) => true,
            (Ty::Named(a), Ty::Named(b)) => same_text(a, b),
            (Ty::Param(a), Ty::Param(b)) => same_text(a, b),
            (Ty::TyVar(a), Ty::TyVar(b)) => *a == *b,
            (Ty::Ref { mutable: m1, region: g1, inner: i1 }, Ty::Ref { mutable: m2, region: g2, inner: i2 }) => {
                let same_region = match (g1, g2) {
                    (Some(a), Some(b)) => a.same(b),
                    (None, None) => true,
                    _ => false,
                };
                *m1 == *m2 && same_region && (**i1).same(&**i2)
            },
            _ => false,
        }
    }

    pub fn is_error(&self) -> (r: bool)
        ensures
            r == (*self is Error),
    {
        matches!(self, Ty::Error)
    }

    pub fn is_ref(&self) -> (r: bool)
        ensures
            r == (*self is Ref),
    {
        matches!(self, Ty::Ref { .. })
    }

    /// The source-level spelling of the type, as diagnostics write it
    /// (`i32`, `&mut Point`, `?0`, `<error>`).
    pub fn text(&self) -> (r: String)
        ensures
            r@ == ty_text(self@),
        decreases self,
    {
        let mut s = String::new();
        self.push_text(&mut s);
        s
    }

    fn push_text(&self, s: &mut String)
        ensures
            final(s)@ == old(s)@ + ty_text(self@),
        decreases self,
    {
        match self {
            Ty::I32 => push_str(s, "i32"),
            Ty::F64 => push_str(s, "f64"),
            Ty::Bool => push_str(s, "bool"),
            Ty::Char => push_str(s, "char"),
            Ty::Str => push_str(s, "str"),
            Ty::Unit => push_str(s, "unit"),
            Ty::Named(n) | Ty::Param(n) => push_str(s, n.as_str()),
            Ty::Ref { mutable, inner, .. } => {
                if *mutable {
                    push_str(s, "&mut ");
                } else {
                    push_str(s, "&");
                }
                (**inner).push_text(s);
            },
            Ty::TyVar(id) => {
                push_str(s, "?");
                push_u64(s, *id as u64);
            },
            Ty::Error => push_str(s, "<error>"),
        }
    }

    /// The structural spelling of the type (`I32`, `Named("Point")`,
    /// `Ref { mutable: false, region: None, inner: Str }`).
    pub fn debug_text(&self) -> (r: String)
        ensures
            r@ == ty_debug(self@),
        decreases self,
    {
        let mut s = String::new();
        self.push_debug(&mut s);
        s
    }

    pub(crate) fn push_debug(&self, s: &mut String)
        ensures
            final(s)@ == old(s)@ + ty_debug(self@),
        decreases self,
    {
        match self {
            Ty::I32 => push_str(s, "I32"),
            Ty::F64 => push_str(s, "F64"),
            Ty::Bool => push_str(s, "Bool"),
            Ty::Char => push_str(s, "Char"),
            Ty::Str => push_str(s, "Str"),
            Ty::Unit => push_str(s, "Unit"),
            Ty::Named(n) => {
                push_str(s, "Named(\"");
                push_str(s, n.as_str());
                push_str(s, "\")");
            },
            Ty::Param(n) => {
                push_str(s, "Param(\"");
                push_str(s, n.as_str());
                push_str(s, "\")");
            },
            Ty::Ref { mutable, region, inner } => {
                push_str(s, "Ref { mutable: ");
                push_str(s, if *mutable { "true" } else { "false" });
                push_str(s, ", region: ");
                match region {
                    None => push_str(s, "None"),
                    Some(Region::Static) => push_str(s, "Some(Static)"),
                    Some(Region::Named(n)) => {
                        push_str(s, "Some(Named(\"");
                        push_str(s, n.as_str());
                        push_str(s, "\"))");
                    },
                }
                push_str(s, ", inner: ");
                (**inner).push_debug(s);
                push_str(s, " }");
            },
            Ty::TyVar(id) => {
                push_str(s, "TyVar(");
                push_u64(s, *id as u64);
                push_str(s, ")");
            },
            Ty::Error => push_str(s, "Error"),
        }
    }
}

impl FnSig {
    /// An identical copy of this signature.
    pub fn dup(&self) -> (r: FnSig)
        ensures
            r.params@ == self.params@,
            r.return_ty == self.return_ty,
            r.is_generic == self.is_generic,
            r.self_consuming == self.self_consuming,
    {
        FnSig {
            params: dup_tys(&self.params),
            return_ty: self.return_ty.dup(),
            is_generic: self.is_generic,
            self_consuming: self.self_consuming,
        }
    }
}

/// An identical copy of a list of types.
pub fn dup_tys(v: &Vec<Ty>) -> (r: Vec<Ty>)
    ensures
        r@ == v@,
{
    let mut out: Vec<Ty> = Vec::new();
    let mut i: usize = 0;
    while i < v.len()
        invariant
            i <= v@.len(),
            out@ == v@.subrange(0, i as int),
        decreases v@.len() - i,
    {
        out.push(v[i].dup());
        i = i + 1;
    }
    out
}

} // verus!

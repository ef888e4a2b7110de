//! Executable tests of what the GLSL writer needs of a value to print it.

use vstd::prelude::*;

use crate::fold::lemma_fields_ok;
use crate::syntax::{
    fields_view, lemma_fields_view, opt_view, seq_view, Block, FunctionParameterDeclaration,
    FunctionPrototype, SingleDeclaration, SpecTypeQualifierSpec, StructFieldSpecifier,
    StructSpecifier, TypeQualifier, TypeQualifierSpec, TypeSpecifier, TypeSpecifierNonArray,
};
use crate::writer::{
    block_ok, decl_ok, field_ok, fields_ok, opt_qualifier_ok, param_ok, prototype_ok, qualifier_ok,
    struct_ok, type_ok,
};

verus! {

/// Whether the writer can print the qualifier `q`.
pub fn qualifier_printable(q: &TypeQualifier) -> (b: bool)
    ensures
        b == qualifier_ok(q@),
{
    let n = q.qualifiers.len();
    if n == 0 {
        return false;
    }
    let mut i: usize = 0;
    while i < n
        invariant
            n == q.qualifiers@.len(),
            i <= n,
            forall|j: int| 0 <= j < i ==> match #[trigger] q@.qualifiers[j] {
                SpecTypeQualifierSpec::Layout(l) => l.ids.len() >= 1,
                _ => true,
            },
        decreases n - i,
    {
        assert(q@.qualifiers[i as int] == q.qualifiers@[i as int]@);
        match &q.qualifiers[i] {
            TypeQualifierSpec::Layout(l) => {
                if l.ids.len() == 0 {
                    return false;
                }
            },
            _ => {},
        }
        i = i + 1;
    }
    true
}

/// Whether the writer can print the optional qualifier `q`.
pub fn opt_qualifier_printable(q: &Option<TypeQualifier>) -> (b: bool)
    ensures
        b == opt_qualifier_ok(opt_view(*q)),
{
    match q {
        Some(q) => qualifier_printable(q),
        None => true,
    }
}

/// Whether the writer can print the type `t`.
pub fn type_printable(t: &TypeSpecifier) -> (b: bool)
    ensures
        b == type_ok(t@),
    decreases t,
{
    match &t.ty {
        TypeSpecifierNonArray::Struct(s) => struct_printable(s),
        _ => true,
    }
}

/// Whether the writer can print the field `f`.
pub fn field_printable(f: &StructFieldSpecifier) -> (b: bool)
    ensures
        b == field_ok(f@),
    decreases f,
{
    opt_qualifier_printable(&f.qualifier) && type_printable(&f.ty) && f.identifiers.len() >= 1
}

/// Whether the writer can print every field of `fs`.
pub fn fields_printable(fs: &Vec<StructFieldSpecifier>) -> (b: bool)
    ensures
        b == fields_ok(fields_view(fs@)),
    decreases fs@,
{
    proof {
        lemma_fields_view(fs@);
        lemma_fields_ok(fields_view(fs@));
    }
    let n = fs.len();
    let mut i: usize = 0;
    while i < n
        invariant
            n == fs@.len(),
            i <= n,
            fields_view(fs@).len() == n,
            forall|j: int| 0 <= j < n ==> #[trigger] fields_view(fs@)[j] == fs@[j]@,
            forall|j: int| 0 <= j < i ==> field_ok(#[trigger] fields_view(fs@)[j]),
        decreases n - i,
    {
        proof {
            assert(decreases_to!(fs@ => fs@[i as int]));
        }
        if !field_printable(&fs[i]) {
            assert(!field_ok(fields_view(fs@)[i as int]));
            proof {
                lemma_fields_ok(fields_view(fs@));
            }
            return false;
        }
        i = i + 1;
    }
    proof {
        lemma_fields_ok(fields_view(fs@));
    }
    true
}

/// Whether the writer can print the struct `s`.
pub fn struct_printable(s: &StructSpecifier) -> (b: bool)
    ensures
        b == struct_ok(s@),
    decreases s,
{
    fields_printable(&s.fields)
}

/// Whether the writer can print the declaration `d`.
pub fn decl_printable(d: &SingleDeclaration) -> (b: bool)
    ensures
        b == decl_ok(d@),
{
    opt_qualifier_printable(&d.ty.qualifier) && type_printable(&d.ty.ty)
}

/// Whether the writer can print the block `b`.
pub fn block_printable(b: &Block) -> (res: bool)
    ensures
        res == block_ok(b@),
{
    qualifier_printable(&b.qualifier) && fields_printable(&b.fields)
}

/// Whether the writer can print the parameter `p`.
pub fn param_printable(p: &FunctionParameterDeclaration) -> (b: bool)
    ensures
        b == param_ok(p@),
{
    match p {
        FunctionParameterDeclaration::Named(q, d) => opt_qualifier_printable(q) && type_printable(&d.ty),
        FunctionParameterDeclaration::Unnamed(q, t) => opt_qualifier_printable(q) && type_printable(t),
    }
}

/// Whether the writer can print the prototype `p`.
pub fn prototype_printable(p: &FunctionPrototype) -> (b: bool)
    ensures
        b == prototype_ok(p@),
{
    if !(opt_qualifier_printable(&p.ty.qualifier) && type_printable(&p.ty.ty)) {
        return false;
    }
    let n = p.parameters.len();
    let mut i: usize = 0;
    while i < n
        invariant
            n == p.parameters@.len(),
            i <= n,
            forall|j: int| 0 <= j < i ==> param_ok(#[trigger] p@.parameters[j]),
        decreases n - i,
    {
        assert(p@.parameters[i as int] == p.parameters@[i as int]@);
        if !param_printable(&p.parameters[i]) {
            return false;
        }
        i = i + 1;
    }
    true
}

} // verus!

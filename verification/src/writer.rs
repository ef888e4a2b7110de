use vstd::prelude::*;

use glsl::syntax as g;

use crate::syntax::{
    ArraySpecifier, Block, BuiltinType, Expr, FullySpecifiedType, FunctionParameterDeclaration,
    FunctionPrototype, InterpolationQualifier, LayoutQualifierSpec, PrecisionQualifier,
    SingleDeclaration, SpecBlock, SpecFullySpecifiedType, SpecFunctionParameterDeclaration,
    SpecFunctionPrototype, SpecSingleDeclaration, SpecStructFieldSpecifier, SpecStructSpecifier,
    SpecTypeQualifier, SpecTypeQualifierSpec, SpecTypeSpecifier, SpecTypeSpecifierNonArray,
    StorageQualifier, StructFieldSpecifier, StructSpecifier, TypeQualifier, TypeQualifierSpec,
    TypeSpecifier, TypeSpecifierNonArray,
};

verus! {

// ---- Well-formedness: what the GLSL writer needs of a value to print it.

/// A qualifier that the writer can print: at least one qualifier, and no empty layout.
pub open spec fn qualifier_ok(q: SpecTypeQualifier) -> bool {
    &&& q.qualifiers.len() >= 1
    &&& forall|i: int| 0 <= i < q.qualifiers.len() ==> match #[trigger] q.qualifiers[i] {
        SpecTypeQualifierSpec::Layout(l) => l.ids.len() >= 1,
        _ => true,
    }
}

pub open spec fn opt_qualifier_ok(q: Option<SpecTypeQualifier>) -> bool {
    match q {
        Some(q) => qualifier_ok(q),
        None => true,
    }
}

pub open spec fn type_ok(t: SpecTypeSpecifier) -> bool
    decreases t,
{
    match t.ty {
        SpecTypeSpecifierNonArray::Struct(s) => struct_ok(s),
        _ => true,
    }
}

pub open spec fn field_ok(f: SpecStructFieldSpecifier) -> bool
    decreases f,
{
    opt_qualifier_ok(f.qualifier) && type_ok(f.ty) && f.identifiers.len() >= 1
}

pub open spec fn fields_ok(fs: Seq<SpecStructFieldSpecifier>) -> bool
    decreases fs,
{
    if fs.len() == 0 {
        true
    } else {
        fields_ok(fs.drop_last()) && field_ok(fs.last())
    }
}

/// A struct that the writer can print: every field is printable.
pub open spec fn struct_ok(s: SpecStructSpecifier) -> bool
    decreases s,
{
    fields_ok(s.fields)
}

pub open spec fn fully_ok(t: SpecFullySpecifiedType) -> bool {
    opt_qualifier_ok(t.qualifier) && type_ok(t.ty)
}

pub open spec fn decl_ok(d: SpecSingleDeclaration) -> bool {
    fully_ok(d.ty)
}

pub open spec fn block_ok(b: SpecBlock) -> bool {
    qualifier_ok(b.qualifier) && fields_ok(b.fields)
}

pub open spec fn param_ok(p: SpecFunctionParameterDeclaration) -> bool {
    match p {
        SpecFunctionParameterDeclaration::Named(q, d) => opt_qualifier_ok(q) && type_ok(d.ty),
        SpecFunctionParameterDeclaration::Unnamed(q, t) => opt_qualifier_ok(q) && type_ok(t),
    }
}

pub open spec fn prototype_ok(p: SpecFunctionPrototype) -> bool {
    fully_ok(p.ty) && forall|i: int| 0 <= i < p.parameters.len() ==> param_ok(#[trigger] p.parameters[i])
}

// ---- Conversion of the library's syntax to `glsl`'s, one value for one value.

#[verifier::external_body]
fn glsl_expr(e: &Expr) -> g::Expr {
    match e {
        Expr::IntConst(i) => g::Expr::IntConst(*i),
        Expr::Other(s) => g::Expr::Variable(g::Identifier(s.clone())),
    }
}

#[verifier::external_body]
fn glsl_array(a: &ArraySpecifier) -> g::ArraySpecifier {
    let dimension = match a {
        ArraySpecifier::Unsized => g::ArraySpecifierDimension::Unsized,
        ArraySpecifier::ExplicitlySized(e) => g::ArraySpecifierDimension::ExplicitlySized(Box::new(glsl_expr(e))),
    };
    g::ArraySpecifier { dimensions: g::NonEmpty(vec![dimension]) }
}

#[verifier::external_body]
fn glsl_qualifier_spec(q: &TypeQualifierSpec) -> g::TypeQualifierSpec {
    match q {
        TypeQualifierSpec::Storage(s) => g::TypeQualifierSpec::Storage(glsl_storage(*s)),
        TypeQualifierSpec::Layout(l) => g::TypeQualifierSpec::Layout(g::LayoutQualifier {
            ids: g::NonEmpty(l.ids.iter().map(|i| glsl_layout_spec(i)).collect()),
        }),
        TypeQualifierSpec::Precision(p) => g::TypeQualifierSpec::Precision(glsl_precision(*p)),
        TypeQualifierSpec::Interpolation(i) => g::TypeQualifierSpec::Interpolation(glsl_interpolation(*i)),
        TypeQualifierSpec::Invariant => g::TypeQualifierSpec::Invariant,
        TypeQualifierSpec::Precise => g::TypeQualifierSpec::Precise,
    }
}

#[verifier::external_body]
fn glsl_layout_spec(l: &LayoutQualifierSpec) -> g::LayoutQualifierSpec {
    match l {
        LayoutQualifierSpec::Identifier(n, e) => g::LayoutQualifierSpec::Identifier(
            g::Identifier(n.clone()),
            e.as_ref().map(|e| Box::new(glsl_expr(e))),
        ),
        LayoutQualifierSpec::Shared => g::LayoutQualifierSpec::Shared,
    }
}

#[verifier::external_body]
fn glsl_storage(s: StorageQualifier) -> g::StorageQualifier {
    match s {
        StorageQualifier::Const => g::StorageQualifier::Const,
        StorageQualifier::InOut => g::StorageQualifier::InOut,
        StorageQualifier::In => g::StorageQualifier::In,
        StorageQualifier::Out => g::StorageQualifier::Out,
        StorageQualifier::Centroid => g::StorageQualifier::Centroid,
        StorageQualifier::Patch => g::StorageQualifier::Patch,
        StorageQualifier::Sample => g::StorageQualifier::Sample,
        StorageQualifier::Uniform => g::StorageQualifier::Uniform,
        other => glsl_storage_more(other),
    }
}

#[verifier::external_body]
fn glsl_storage_more(s: StorageQualifier) -> g::StorageQualifier {
    match s {
        StorageQualifier::Buffer => g::StorageQualifier::Buffer,
        StorageQualifier::Shared => g::StorageQualifier::Shared,
        StorageQualifier::Coherent => g::StorageQualifier::Coherent,
        StorageQualifier::Volatile => g::StorageQualifier::Volatile,
        StorageQualifier::Restrict => g::StorageQualifier::Restrict,
        StorageQualifier::ReadOnly => g::StorageQualifier::ReadOnly,
        StorageQualifier::WriteOnly => g::StorageQualifier::WriteOnly,
        _ => g::StorageQualifier::Subroutine(vec![]),
    }
}

#[verifier::external_body]
fn glsl_precision(p: PrecisionQualifier) -> g::PrecisionQualifier {
    match p {
        PrecisionQualifier::High => g::PrecisionQualifier::High,
        PrecisionQualifier::Medium => g::PrecisionQualifier::Medium,
        PrecisionQualifier::Low => g::PrecisionQualifier::Low,
    }
}

#[verifier::external_body]
fn glsl_interpolation(i: InterpolationQualifier) -> g::InterpolationQualifier {
    match i {
        InterpolationQualifier::Smooth => g::InterpolationQualifier::Smooth,
        InterpolationQualifier::Flat => g::InterpolationQualifier::Flat,
        InterpolationQualifier::NoPerspective => g::InterpolationQualifier::NoPerspective,
    }
}

#[verifier::external_body]
fn glsl_qualifier(q: &TypeQualifier) -> g::TypeQualifier {
    g::TypeQualifier { qualifiers: g::NonEmpty(q.qualifiers.iter().map(|s| glsl_qualifier_spec(s)).collect()) }
}

#[verifier::external_body]
fn glsl_builtin(b: BuiltinType) -> g::TypeSpecifierNonArray {
    match b {
        BuiltinType::Void => g::TypeSpecifierNonArray::Void,
        BuiltinType::Bool => g::TypeSpecifierNonArray::Bool,
        BuiltinType::Int => g::TypeSpecifierNonArray::Int,
        BuiltinType::UInt => g::TypeSpecifierNonArray::UInt,
        BuiltinType::Float => g::TypeSpecifierNonArray::Float,
        BuiltinType::Double => g::TypeSpecifierNonArray::Double,
        BuiltinType::Vec2 => g::TypeSpecifierNonArray::Vec2,
        BuiltinType::Vec3 => g::TypeSpecifierNonArray::Vec3,
        BuiltinType::Vec4 => g::TypeSpecifierNonArray::Vec4,
        BuiltinType::DVec2 => g::TypeSpecifierNonArray::DVec2,
        BuiltinType::DVec3 => g::TypeSpecifierNonArray::DVec3,
        BuiltinType::DVec4 => g::TypeSpecifierNonArray::DVec4,
        other => glsl_builtin_more(other),
    }
}

#[verifier::external_body]
fn glsl_builtin_more(b: BuiltinType) -> g::TypeSpecifierNonArray {
    match b {
        BuiltinType::BVec2 => g::TypeSpecifierNonArray::BVec2,
        BuiltinType::BVec3 => g::TypeSpecifierNonArray::BVec3,
        BuiltinType::BVec4 => g::TypeSpecifierNonArray::BVec4,
        BuiltinType::IVec2 => g::TypeSpecifierNonArray::IVec2,
        BuiltinType::IVec3 => g::TypeSpecifierNonArray::IVec3,
        BuiltinType::IVec4 => g::TypeSpecifierNonArray::IVec4,
        BuiltinType::UVec2 => g::TypeSpecifierNonArray::UVec2,
        BuiltinType::UVec3 => g::TypeSpecifierNonArray::UVec3,
        BuiltinType::UVec4 => g::TypeSpecifierNonArray::UVec4,
        other => glsl_builtin_matrix_sampler(other),
    }
}

#[verifier::external_body]
fn glsl_builtin_matrix_sampler(b: BuiltinType) -> g::TypeSpecifierNonArray {
    match b {
        BuiltinType::Mat2 => g::TypeSpecifierNonArray::Mat2,
        BuiltinType::Mat3 => g::TypeSpecifierNonArray::Mat3,
        BuiltinType::Mat4 => g::TypeSpecifierNonArray::Mat4,
        BuiltinType::Sampler1D => g::TypeSpecifierNonArray::Sampler1D,
        BuiltinType::Sampler2D => g::TypeSpecifierNonArray::Sampler2D,
        BuiltinType::Sampler3D => g::TypeSpecifierNonArray::Sampler3D,
        _ => g::TypeSpecifierNonArray::SamplerCube,
    }
}

#[verifier::external_body]
fn glsl_type(t: &TypeSpecifier) -> g::TypeSpecifier {
    let ty = match &t.ty {
        TypeSpecifierNonArray::Builtin(b) => glsl_builtin(*b),
        TypeSpecifierNonArray::Struct(s) => g::TypeSpecifierNonArray::Struct(glsl_struct(s)),
        TypeSpecifierNonArray::TypeName(n) => g::TypeSpecifierNonArray::TypeName(g::TypeName(n.clone())),
    };
    g::TypeSpecifier { ty, array_specifier: t.array_specifier.as_ref().map(|a| glsl_array(a)) }
}

#[verifier::external_body]
fn glsl_field(f: &StructFieldSpecifier) -> g::StructFieldSpecifier {
    let identifiers = f.identifiers.iter().map(|(n, a)| g::ArrayedIdentifier {
        ident: g::Identifier(n.clone()),
        array_spec: a.as_ref().map(|a| glsl_array(a)),
    });
    g::StructFieldSpecifier {
        qualifier: f.qualifier.as_ref().map(|q| glsl_qualifier(q)),
        ty: glsl_type(&f.ty),
        identifiers: g::NonEmpty(identifiers.collect()),
    }
}

#[verifier::external_body]
fn glsl_struct(s: &StructSpecifier) -> g::StructSpecifier {
    g::StructSpecifier {
        name: s.name.as_ref().map(|n| g::TypeName(n.clone())),
        fields: g::NonEmpty(s.fields.iter().map(|f| glsl_field(f)).collect()),
    }
}

#[verifier::external_body]
fn glsl_fully(t: &FullySpecifiedType) -> g::FullySpecifiedType {
    g::FullySpecifiedType { qualifier: t.qualifier.as_ref().map(|q| glsl_qualifier(q)), ty: glsl_type(&t.ty) }
}

#[verifier::external_body]
fn glsl_param(p: &FunctionParameterDeclaration) -> g::FunctionParameterDeclaration {
    match p {
        FunctionParameterDeclaration::Named(q, d) => g::FunctionParameterDeclaration::Named(
            q.as_ref().map(|q| glsl_qualifier(q)),
            g::FunctionParameterDeclarator {
                ty: glsl_type(&d.ty),
                ident: g::ArrayedIdentifier { ident: g::Identifier(d.name.clone()), array_spec: d.array_spec.as_ref().map(|a| glsl_array(a)) },
            },
        ),
        FunctionParameterDeclaration::Unnamed(q, t) => g::FunctionParameterDeclaration::Unnamed(q.as_ref().map(|q| glsl_qualifier(q)), glsl_type(t)),
    }
}

// ---- The GLSL writer of `glsl`, and the names of what it writes.

/// The text that `glsl`'s writer gives for the struct `s` (`show_struct`).
pub uninterp spec fn shown_struct(s: SpecStructSpecifier) -> Seq<char>;

/// The text that `glsl`'s writer gives for the declaration `d` (`show_single_declaration`).
pub uninterp spec fn shown_single_declaration(d: SpecSingleDeclaration) -> Seq<char>;

/// The text that `glsl`'s writer gives for the block `b` (`show_block`).
pub uninterp spec fn shown_block(b: SpecBlock) -> Seq<char>;

/// The text that `glsl`'s writer gives for the prototype `p` (`show_function_prototype`).
pub uninterp spec fn shown_function_prototype(p: SpecFunctionPrototype) -> Seq<char>;

/// Appends what `glsl::transpiler::glsl::show_struct` writes for `s`: a function of `s` alone. The
/// writer unwraps the first of each list of qualifiers, layout entries and field names, so those
/// are not empty.
#[verifier::external_body]
pub(crate) fn show_struct(sink: &mut String, s: &StructSpecifier)
    requires
        struct_ok(s@),
    ensures
        final(sink)@ == old(sink)@ + shown_struct(s@),
{
    glsl::transpiler::glsl::show_struct(sink, &glsl_struct(s));
}

/// Appends what `glsl::transpiler::glsl::show_single_declaration` writes for `d`: a function of
/// `d` alone.
#[verifier::external_body]
pub(crate) fn show_single_declaration(sink: &mut String, d: &SingleDeclaration)
    requires
        decl_ok(d@),
    ensures
        final(sink)@ == old(sink)@ + shown_single_declaration(d@),
{
    let decl = g::SingleDeclaration {
        ty: glsl_fully(&d.ty),
        name: d.name.as_ref().map(|n| g::Identifier(n.clone())),
        array_specifier: d.array_specifier.as_ref().map(|a| glsl_array(a)),
        initializer: d.initializer.as_ref().map(|e| g::Initializer::Simple(Box::new(glsl_expr(e)))),
    };
    glsl::transpiler::glsl::show_single_declaration(sink, &decl);
}

/// Appends what `glsl::transpiler::glsl::show_block` writes for `b`: a function of `b` alone.
#[verifier::external_body]
pub(crate) fn show_block(sink: &mut String, b: &Block)
    requires
        block_ok(b@),
    ensures
        final(sink)@ == old(sink)@ + shown_block(b@),
{
    let block = g::Block {
        qualifier: glsl_qualifier(&b.qualifier),
        name: g::Identifier(b.name.clone()),
        fields: b.fields.iter().map(|f| glsl_field(f)).collect(),
        identifier: b.identifier.as_ref().map(|(n, a)| g::ArrayedIdentifier { ident: g::Identifier(n.clone()), array_spec: a.as_ref().map(|a| glsl_array(a)) }),
    };
    glsl::transpiler::glsl::show_block(sink, &block);
}

/// Appends what `glsl::transpiler::glsl::show_function_prototype` writes for `p`: a function of
/// `p` alone.
#[verifier::external_body]
pub(crate) fn show_function_prototype(sink: &mut String, p: &FunctionPrototype)
    requires
        prototype_ok(p@),
    ensures
        final(sink)@ == old(sink)@ + shown_function_prototype(p@),
{
    let proto = g::FunctionPrototype {
        ty: glsl_fully(&p.ty),
        name: g::Identifier(p.name.clone()),
        parameters: p.parameters.iter().map(|q| glsl_param(q)).collect(),
    };
    glsl::transpiler::glsl::show_function_prototype(sink, &proto);
}

} // verus!

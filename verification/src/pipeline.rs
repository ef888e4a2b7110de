use vstd::prelude::*;

use crate::duplicate::{duplicate_opt, Duplicate};
use crate::stage::{get_gs_output_layout_metadata, gs_input_prim_name, gs_output_layout, guess_gs_input_prim};
use crate::syntax::{
    lemma_fields_view, opt_view, result_view, seq_view, BuiltinType, FullySpecifiedType,
    FunctionDefinition, FunctionParameterDeclaration, GLSLConversionError, SingleDeclaration,
    SpecArraySpecifier, SpecConversionError, SpecExpr, SpecFullySpecifiedType,
    SpecFunctionDefinition, SpecFunctionParameterDeclaration, SpecSingleDeclaration,
    SpecStructFieldSpecifier, SpecStructSpecifier, SpecTypeQualifier, SpecTypeQualifierSpec,
    SpecTypeSpecifier, SpecTypeSpecifierNonArray, StorageQualifier, StructFieldSpecifier,
    StructSpecifier, TypeQualifier, TypeQualifierSpec, TypeSpecifierNonArray,
};
use crate::text::str_eq;

verus! {

/// A composite type: a struct, given by its definition or by its name.
pub open spec fn is_composite(t: SpecTypeSpecifierNonArray) -> bool {
    t is Struct || t is TypeName
}

/// The qualifier of a stage output declared by a field with qualifier `q`: the field's qualifiers
/// followed by `out`.
pub open spec fn out_qualifier(q: Option<SpecTypeQualifier>) -> SpecTypeQualifier {
    let own = match q {
        Some(q) => q.qualifiers,
        None => Seq::empty(),
    };
    SpecTypeQualifier { qualifiers: own.push(SpecTypeQualifierSpec::Storage(StorageQualifier::Out)) }
}

/// The output declared for the name `id` of the field `f`: `out TYPE PREFIXname[array]`.
pub open spec fn field_decl(
    f: SpecStructFieldSpecifier,
    prefix: Seq<char>,
    id: (Seq<char>, Option<SpecArraySpecifier>),
) -> SpecSingleDeclaration {
    SpecSingleDeclaration {
        ty: SpecFullySpecifiedType { qualifier: Some(out_qualifier(f.qualifier)), ty: f.ty },
        name: Some(prefix + id.0),
        array_specifier: id.1,
        initializer: None,
    }
}

/// The outputs declared by the field `f`, one per name it declares.
pub open spec fn field_decls(f: SpecStructFieldSpecifier, prefix: Seq<char>) -> Seq<SpecSingleDeclaration> {
    f.identifiers.map_values(|id: (Seq<char>, Option<SpecArraySpecifier>)| field_decl(f, prefix, id))
}

/// The stage outputs declared by the fields `fs`, each name prefixed with `prefix`: the outputs
/// of each field in order, or, when a field is a struct, the first such field as the error.
pub open spec fn spec_fields_decls(
    fs: Seq<SpecStructFieldSpecifier>,
    prefix: Seq<char>,
) -> Result<Seq<SpecSingleDeclaration>, SpecConversionError>
    decreases fs.len(),
{
    if fs.len() == 0 {
        Ok(Seq::empty())
    } else {
        match spec_fields_decls(fs.drop_last(), prefix) {
            Err(e) => Err(e),
            Ok(d) => if is_composite(fs.last().ty.ty) {
                Err(SpecConversionError::CompositeOutputField(fs.last()))
            } else {
                Ok(d + field_decls(fs.last(), prefix))
            },
        }
    }
}

/// The model of a list of declarations, or of the error.
pub open spec fn decls_result(r: Result<Vec<SingleDeclaration>, GLSLConversionError>) -> Result<Seq<SpecSingleDeclaration>, SpecConversionError> {
    match r {
        Ok(v) => Ok(seq_view(v@)),
        Err(e) => Err(e@),
    }
}

/// The model of what a stage gives: its return type and its outputs, or the error.
pub open spec fn stage_result(
    r: Result<(StructSpecifier, Vec<SingleDeclaration>), GLSLConversionError>,
) -> Result<(SpecStructSpecifier, Seq<SpecSingleDeclaration>), SpecConversionError> {
    match r {
        Ok((t, v)) => Ok((t@, seq_view(v@))),
        Err(e) => Err(e@),
    }
}

/// An error found among the first fields stays the error of the whole list.
pub proof fn lemma_fields_decls_error(fs: Seq<SpecStructFieldSpecifier>, prefix: Seq<char>, k: int)
    requires
        0 <= k <= fs.len(),
        spec_fields_decls(fs.take(k), prefix) is Err,
    ensures
        spec_fields_decls(fs, prefix) == spec_fields_decls(fs.take(k), prefix),
    decreases fs.len(),
{
    if k == fs.len() {
        assert(fs.take(k) =~= fs);
    } else {
        assert(fs.drop_last().take(k) =~= fs.take(k));
        lemma_fields_decls_error(fs.drop_last(), prefix, k);
    }
}

/// The qualifier of an output declared by a field qualified by `q`.
fn out_qualifier_of(q: &Option<TypeQualifier>) -> (res: TypeQualifier)
    ensures
        res@ == out_qualifier(opt_view(*q)),
{
    match q {
        Some(q) => {
            let mut d = q.duplicate();
            let ghost before = d.qualifiers@;
            d.qualifiers.push(TypeQualifierSpec::Storage(StorageQualifier::Out));
            assert(seq_view(d.qualifiers@) =~= seq_view(before).push(
                SpecTypeQualifierSpec::Storage(StorageQualifier::Out),
            ));
            d
        },
        None => {
            let mut qualifiers: Vec<TypeQualifierSpec> = Vec::new();
            qualifiers.push(TypeQualifierSpec::Storage(StorageQualifier::Out));
            let res = TypeQualifier { qualifiers };
            assert(seq_view(res.qualifiers@) =~= Seq::<SpecTypeQualifierSpec>::empty().push(
                SpecTypeQualifierSpec::Storage(StorageQualifier::Out),
            ));
            res
        },
    }
}

/// The stage outputs declared by `fields`, each name prefixed with `prefix`. A field whose type
/// is a struct cannot cross stages: the first such field is the error.
pub fn fields_to_single_decls(fields: &[StructFieldSpecifier], prefix: &str) -> (res: Result<Vec<SingleDeclaration>, GLSLConversionError>)
    ensures
        decls_result(res) == spec_fields_decls(seq_view(fields@), prefix@),
{
    let ghost fs = seq_view(fields@);
    let mut res: Vec<SingleDeclaration> = Vec::new();
    let n = fields.len();
    let mut i: usize = 0;
    assert(fs.take(0) =~= Seq::<SpecStructFieldSpecifier>::empty());
    assert(seq_view(res@) =~= Seq::<SpecSingleDeclaration>::empty());
    while i < n
        invariant
            n == fields@.len(),
            fs == seq_view(fields@),
            i <= n,
            spec_fields_decls(fs.take(i as int), prefix@) == Ok::<Seq<SpecSingleDeclaration>, SpecConversionError>(seq_view(res@)),
        decreases n - i,
    {
        let field = &fields[i];
        assert(fs[i as int] == field@);
        assert(fs.take(i + 1).drop_last() =~= fs.take(i as int));
        assert(fs.take(i + 1).last() == field@);
        match &field.ty.ty {
            TypeSpecifierNonArray::Struct(_) | TypeSpecifierNonArray::TypeName(_) => {
                let f = field.duplicate();
                proof {
                    lemma_fields_decls_error(fs, prefix@, i + 1);
                }
                return Err(GLSLConversionError::CompositeOutputField(f));
            },
            _ => {},
        }
        let ghost start = seq_view(res@);
        let ghost ids = field@.identifiers;
        let ghost h = |id: (Seq<char>, Option<SpecArraySpecifier>)| field_decl(field@, prefix@, id);
        let m = field.identifiers.len();
        let mut j: usize = 0;
        while j < m
            invariant
                m == field.identifiers@.len(),
                ids == field@.identifiers,
                h == (|id: (Seq<char>, Option<SpecArraySpecifier>)| field_decl(field@, prefix@, id)),
                j <= m,
                seq_view(res@) == start + ids.take(j as int).map_values(h),
            decreases m - j,
        {
            let id = &field.identifiers[j];
            let mut name = String::new();
            name.append(prefix);
            name.append(id.0.as_str());
            let decl = SingleDeclaration {
                ty: FullySpecifiedType { qualifier: Some(out_qualifier_of(&field.qualifier)), ty: field.ty.duplicate() },
                name: Some(name),
                array_specifier: duplicate_opt(&id.1),
                initializer: None,
            };
            let ghost before = seq_view(res@);
            res.push(decl);
            proof {
                assert(ids[j as int] == (id.0@, opt_view(id.1)));
                assert(decl@ == h(ids[j as int]));
                assert(ids.take(j + 1).map_values(h) =~= ids.take(j as int).map_values(h).push(h(ids[j as int])));
                assert(seq_view(res@) =~= before.push(decl@));
            }
            j = j + 1;
        }
        proof {
            assert(ids.take(m as int) =~= ids);
            assert(ids.map_values(h) =~= field_decls(field@, prefix@));
        }
        i = i + 1;
    }
    proof {
        assert(fs.take(n as int) =~= fs);
    }
    Ok(res)
}

/// The storage qualifier `out` becomes `in`; any other qualifier stays.
pub open spec fn as_input_qualifier(q: SpecTypeQualifierSpec) -> SpecTypeQualifierSpec {
    if q == SpecTypeQualifierSpec::Storage(StorageQualifier::Out) {
        SpecTypeQualifierSpec::Storage(StorageQualifier::In)
    } else {
        q
    }
}

/// The input of a stage that reads the output `d` of the previous stage: the same declaration,
/// with `in` in place of `out`.
pub open spec fn as_input(d: SpecSingleDeclaration) -> SpecSingleDeclaration {
    SpecSingleDeclaration {
        ty: SpecFullySpecifiedType {
            qualifier: match d.ty.qualifier {
                Some(q) => Some(SpecTypeQualifier {
                    qualifiers: q.qualifiers.map_values(|x: SpecTypeQualifierSpec| as_input_qualifier(x)),
                }),
                None => None,
            },
            ty: d.ty.ty,
        },
        ..d
    }
}

/// The qualifier `q` with `in` in place of `out`.
fn input_qualifier_of(q: &TypeQualifier) -> (res: TypeQualifier)
    ensures
        seq_view(res.qualifiers@) == seq_view(q.qualifiers@).map_values(|x: SpecTypeQualifierSpec| as_input_qualifier(x)),
{
    let mut qualifiers: Vec<TypeQualifierSpec> = Vec::new();
    let n = q.qualifiers.len();
    let mut i: usize = 0;
    while i < n
        invariant
            n == q.qualifiers@.len(),
            i <= n,
            qualifiers@.len() == i,
            forall|j: int| 0 <= j < i ==> #[trigger] qualifiers@[j]@ == as_input_qualifier(q.qualifiers@[j]@),
        decreases n - i,
    {
        let spec = match &q.qualifiers[i] {
            TypeQualifierSpec::Storage(StorageQualifier::Out) => TypeQualifierSpec::Storage(StorageQualifier::In),
            other => other.duplicate(),
        };
        qualifiers.push(spec);
        i = i + 1;
    }
    let res = TypeQualifier { qualifiers };
    assert(seq_view(res.qualifiers@) =~= seq_view(q.qualifiers@).map_values(|x: SpecTypeQualifierSpec| as_input_qualifier(x)));
    res
}

/// The inputs of a stage that reads the outputs `outputs` of the previous stage, in order.
pub fn inputs_from_outputs(outputs: &[SingleDeclaration]) -> (res: Vec<SingleDeclaration>)
    ensures
        seq_view(res@) == seq_view(outputs@).map_values(|d: SpecSingleDeclaration| as_input(d)),
{
    let mut res: Vec<SingleDeclaration> = Vec::new();
    let n = outputs.len();
    let mut i: usize = 0;
    while i < n
        invariant
            n == outputs@.len(),
            i <= n,
            res@.len() == i,
            forall|j: int| 0 <= j < i ==> #[trigger] res@[j]@ == as_input(outputs@[j]@),
        decreases n - i,
    {
        let d = &outputs[i];
        let qualifier = match &d.ty.qualifier {
            Some(q) => Some(input_qualifier_of(q)),
            None => None,
        };
        let input = SingleDeclaration {
            ty: FullySpecifiedType { qualifier, ty: d.ty.ty.duplicate() },
            name: d.name.clone(),
            array_specifier: duplicate_opt(&d.array_specifier),
            initializer: duplicate_opt(&d.initializer),
        };
        assert(input@ == as_input(d@));
        res.push(input);
        i = i + 1;
    }
    assert(seq_view(res@) =~= seq_view(outputs@).map_values(|d: SpecSingleDeclaration| as_input(d)));
    res
}

/// The first struct of `structs` named `n`, if any.
pub open spec fn struct_named(structs: Seq<SpecStructSpecifier>, n: Seq<char>) -> Option<SpecStructSpecifier>
    decreases structs.len(),
{
    if structs.len() == 0 {
        None
    } else if structs[0].name == Some(n) {
        Some(structs[0])
    } else {
        struct_named(structs.drop_first(), n)
    }
}

/// The struct found by `struct_named` is one of `structs`.
pub proof fn lemma_struct_named_in(structs: Seq<SpecStructSpecifier>, n: Seq<char>)
    ensures
        struct_named(structs, n) matches Some(s) ==> structs.contains(s),
    decreases structs.len(),
{
    if structs.len() > 0 && structs[0].name != Some(n) {
        lemma_struct_named_in(structs.drop_first(), n);
        if let Some(s) = struct_named(structs.drop_first(), n) {
            let j = choose|j: int| 0 <= j < structs.drop_first().len() && structs.drop_first()[j] == s;
            assert(structs[j + 1] == s);
        }
    } else if structs.len() > 0 {
        assert(structs[0] == structs[0]);
    }
}

/// The struct that a type designates: the first of `structs` named by a type name.
pub open spec fn ret_struct(t: SpecTypeSpecifier, structs: Seq<SpecStructSpecifier>) -> Option<SpecStructSpecifier> {
    match t.ty {
        SpecTypeSpecifierNonArray::TypeName(n) => struct_named(structs, n),
        _ => None,
    }
}

/// The struct that the type `t` names among `structs`, or the error.
pub open spec fn spec_ret_ty(t: SpecTypeSpecifier, structs: Seq<SpecStructSpecifier>) -> Result<SpecStructSpecifier, SpecConversionError> {
    match ret_struct(t, structs) {
        Some(s) => Ok(s),
        None => Err(SpecConversionError::ReturnTypeMustBeAStruct(t)),
    }
}

/// Index of the first struct of `structs` named `name`, if any.
fn find_struct(structs: &[StructSpecifier], name: &str) -> (res: Option<usize>)
    ensures
        match res {
            Some(i) => i < structs@.len() && struct_named(seq_view(structs@), name@) == Some(structs@[i as int]@),
            None => struct_named(seq_view(structs@), name@) is None,
        },
{
    let ghost all = seq_view(structs@);
    let n = structs.len();
    let mut i: usize = 0;
    assert(all.skip(0) =~= all);
    while i < n
        invariant
            n == structs@.len(),
            all == seq_view(structs@),
            i <= n,
            struct_named(all, name@) == struct_named(all.skip(i as int), name@),
        decreases n - i,
    {
        let ghost rest = all.skip(i as int);
        assert(rest[0] == structs@[i as int]@);
        assert(rest.drop_first() =~= all.skip(i + 1));
        let found = match &structs[i].name {
            Some(s) => str_eq(s.as_str(), name),
            None => false,
        };
        if found {
            return Some(i);
        }
        i = i + 1;
    }
    None
}

/// The struct that the return type of `f` names, among `structs`.
pub fn get_fn_ret_ty(f: &FunctionDefinition, structs: &[StructSpecifier]) -> (res: Result<StructSpecifier, GLSLConversionError>)
    ensures
        result_view(res) == spec_ret_ty(f@.prototype.ty.ty, seq_view(structs@)),
{
    let ty = &f.prototype.ty.ty;
    match &ty.ty {
        TypeSpecifierNonArray::TypeName(n) => match find_struct(structs, n.as_str()) {
            Some(i) => Ok(structs[i].duplicate()),
            None => Err(GLSLConversionError::ReturnTypeMustBeAStruct(ty.duplicate())),
        },
        _ => Err(GLSLConversionError::ReturnTypeMustBeAStruct(ty.duplicate())),
    }
}

/// The first field of a vertex: `vec4 spsl_Position`, with no qualifier and no array part.
pub open spec fn is_position_field(f: SpecStructFieldSpecifier) -> bool {
    &&& f.qualifier is None
    &&& f.ty.ty == SpecTypeSpecifierNonArray::Builtin(BuiltinType::Vec4)
    &&& f.identifiers == seq![("spsl_Position"@, None::<SpecArraySpecifier>)]
}

/// Whether `f` is the position field of a vertex.
fn check_position_field(f: &StructFieldSpecifier) -> (res: bool)
    ensures
        res == is_position_field(f@),
{
    proof {
        reveal_strlit("spsl_Position");
    }
    let no_qualifier = f.qualifier.is_none();
    let is_vec4 = match &f.ty.ty {
        TypeSpecifierNonArray::Builtin(BuiltinType::Vec4) => true,
        _ => false,
    };
    let one_name = f.identifiers.len() == 1 && f.identifiers[0].1.is_none()
        && str_eq(f.identifiers[0].0.as_str(), "spsl_Position");
    proof {
        let want = seq![("spsl_Position"@, None::<SpecArraySpecifier>)];
        assert(no_qualifier == (f@.qualifier is None));
        assert(is_vec4 == (f@.ty.ty == SpecTypeSpecifierNonArray::Builtin(BuiltinType::Vec4)));
        if f@.identifiers == want {
            assert(f@.identifiers.len() == 1);
            assert(f@.identifiers[0] == want[0]);
            assert(f@.identifiers[0] == crate::syntax::identifier_view(f.identifiers@[0]));
            assert(one_name);
        }
        if one_name {
            assert(f@.identifiers[0] == crate::syntax::identifier_view(f.identifiers@[0]));
            assert(f@.identifiers =~= want);
        }
    }
    no_qualifier && is_vec4 && one_name
}

/// Every struct declares at least one field, as GLSL requires.
pub open spec fn structs_have_fields(structs: Seq<SpecStructSpecifier>) -> bool {
    forall|i: int| 0 <= i < structs.len() ==> #[trigger] structs[i].fields.len() >= 1
}

/// The outputs of the vertex stage whose function returns `fsty`, or the first error: a qualified
/// return type, a return type that names no struct, a first field other than `spsl_Position`, a
/// composite field.
pub open spec fn spec_vertex_outputs(
    fsty: SpecFullySpecifiedType,
    structs: Seq<SpecStructSpecifier>,
) -> Result<Seq<SpecSingleDeclaration>, SpecConversionError> {
    if fsty.qualifier is Some {
        Err(SpecConversionError::OutputHasMainQualifier)
    } else {
        match ret_struct(fsty.ty, structs) {
            None => Err(SpecConversionError::ReturnTypeMustBeAStruct(fsty.ty)),
            Some(s) => if !is_position_field(s.fields[0]) {
                Err(SpecConversionError::WrongOutputFirstField(s.fields[0]))
            } else {
                spec_fields_decls(s.fields.drop_first(), "spsl_v_"@)
            },
        }
    }
}

/// The vertex stage accepts a return type only when it carries no qualifier and names a struct
/// whose first field is exactly `vec4 spsl_Position`: no qualifier, the type `vec4`, and the one
/// name `spsl_Position` with no array part.
pub proof fn lemma_vertex_outputs_need_the_position(fsty: SpecFullySpecifiedType, structs: Seq<SpecStructSpecifier>)
    ensures
        spec_vertex_outputs(fsty, structs) is Ok ==> {
            &&& fsty.qualifier is None
            &&& ret_struct(fsty.ty, structs) matches Some(s) && {
                let first = s.fields[0];
                &&& first.qualifier is None
                &&& first.ty.ty == SpecTypeSpecifierNonArray::Builtin(BuiltinType::Vec4)
                &&& first.identifiers.len() == 1
                &&& first.identifiers[0].0 == seq!['s', 'p', 's', 'l', '_', 'P', 'o', 's', 'i', 't', 'i', 'o', 'n']
                &&& first.identifiers[0].1 is None
            }
        },
{
    reveal_strlit("spsl_Position");
    if let Some(s) = ret_struct(fsty.ty, structs) {
        let first = s.fields[0];
        let want = seq![("spsl_Position"@, None::<SpecArraySpecifier>)];
        if first.identifiers == want {
            assert(first.identifiers[0] == want[0]);
            assert("spsl_Position"@ =~= seq!['s', 'p', 's', 'l', '_', 'P', 'o', 's', 'i', 't', 'i', 'o', 'n']);
        }
    }
}

/// Extract the vertex shader outputs from the return type of `map_vertex`: the type carries no
/// qualifier and names a struct whose first field is `vec4 spsl_Position`; every further field
/// becomes an output named `spsl_v_NAME`.
pub fn vertex_shader_outputs(fsty: &FullySpecifiedType, structs: &[StructSpecifier]) -> (res: Result<Vec<SingleDeclaration>, GLSLConversionError>)
    requires
        structs_have_fields(seq_view(structs@)),
    ensures
        decls_result(res) == spec_vertex_outputs(fsty@, seq_view(structs@)),
{
    if fsty.qualifier.is_some() {
        return Err(GLSLConversionError::OutputHasMainQualifier);
    }
    let ty = &fsty.ty;
    match &ty.ty {
        TypeSpecifierNonArray::TypeName(ty_name) => match find_struct(structs, ty_name.as_str()) {
            Some(i) => {
                let s = &structs[i];
                proof {
                    assert(seq_view(structs@)[i as int] == s@);
                    assert(seq_view(structs@)[i as int].fields.len() >= 1);
                    lemma_fields_view(s.fields@);
                }
                let first_field = &s.fields[0];
                if !check_position_field(first_field) {
                    return Err(GLSLConversionError::WrongOutputFirstField(first_field.duplicate()));
                }
                let rest = vstd::slice::slice_subrange(s.fields.as_slice(), 1, s.fields.len());
                proof {
                    reveal_strlit("spsl_v_");
                    assert(seq_view(rest@) =~= s@.fields.drop_first());
                }
                fields_to_single_decls(rest, "spsl_v_")
            },
            None => Err(GLSLConversionError::ReturnTypeMustBeAStruct(ty.duplicate())),
        },
        _ => Err(GLSLConversionError::ReturnTypeMustBeAStruct(ty.duplicate())),
    }
}

/// The type of a function parameter, with its qualifier.
pub open spec fn arg_type(a: SpecFunctionParameterDeclaration) -> SpecFullySpecifiedType {
    match a {
        SpecFunctionParameterDeclaration::Named(q, d) => SpecFullySpecifiedType { qualifier: q, ty: d.ty },
        SpecFunctionParameterDeclaration::Unnamed(q, t) => SpecFullySpecifiedType { qualifier: q, ty: t },
    }
}

/// The type of a function parameter, with its qualifier.
pub fn fn_arg_as_fully_spec_ty(arg: &FunctionParameterDeclaration) -> (res: FullySpecifiedType)
    ensures
        res@ == arg_type(arg@),
{
    match arg {
        FunctionParameterDeclaration::Named(q, d) => FullySpecifiedType { qualifier: duplicate_opt(q), ty: d.ty.duplicate() },
        FunctionParameterDeclaration::Unnamed(q, t) => FullySpecifiedType { qualifier: duplicate_opt(q), ty: t.duplicate() },
    }
}

/// The name of the type of `fsty`, which must be given by a type name.
pub fn get_ty_name_from_fully_spec_ty(fsty: &FullySpecifiedType) -> (res: Result<String, GLSLConversionError>)
    ensures
        result_view(res) == spec_ty_name(fsty@),
{
    match &fsty.ty.ty {
        TypeSpecifierNonArray::TypeName(n) => Ok(n.clone()),
        _ => Err(GLSLConversionError::InputTypeMustBeAStruct(fsty.ty.duplicate())),
    }
}

/// The name of the type that a fully specified type gives, or the error.
pub open spec fn spec_ty_name(t: SpecFullySpecifiedType) -> Result<Seq<char>, SpecConversionError> {
    match t.ty.ty {
        SpecTypeSpecifierNonArray::TypeName(n) => Ok(n),
        _ => Err(SpecConversionError::InputTypeMustBeAStruct(t.ty)),
    }
}

/// The name of the type of the only parameter of `f`, or the error.
pub open spec fn spec_fn1_input(f: SpecFunctionDefinition) -> Result<Seq<char>, SpecConversionError> {
    let params = f.prototype.parameters;
    if params.len() != 1 {
        Err(SpecConversionError::WrongNumberOfArgs(1, params.len() as usize))
    } else {
        spec_ty_name(arg_type(params[0]))
    }
}

/// The name of the type of the only parameter of `f`.
pub fn get_fn1_input_ty_name(f: &FunctionDefinition) -> (res: Result<String, GLSLConversionError>)
    ensures
        result_view(res) == spec_fn1_input(f@),
{
    let params = &f.prototype.parameters;
    if params.len() != 1 {
        return Err(GLSLConversionError::WrongNumberOfArgs(1, params.len()));
    }
    let input = fn_arg_as_fully_spec_ty(&params[0]);
    get_ty_name_from_fully_spec_ty(&input)
}

/// Whether an input array of this form tells the input primitive of a geometry shader.
pub open spec fn gs_input_prim_ok(a: Option<SpecArraySpecifier>) -> bool {
    match a {
        Some(SpecArraySpecifier::ExplicitlySized(SpecExpr::IntConst(size))) => gs_input_prim_name(size) is Some,
        _ => false,
    }
}

/// The error for an input of a geometry shader that does not tell its primitive and layout.
pub open spec fn gs_input_error(input: SpecFullySpecifiedType) -> Option<SpecConversionError> {
    if !gs_input_prim_ok(input.ty.array_specifier) {
        Some(gs_input_prim_view(input.ty.array_specifier))
    } else if gs_output_layout(input.qualifier) is None {
        Some(SpecConversionError::WrongGeometryOutputLayout)
    } else {
        None
    }
}

/// The model of `gs_input_prim_error`.
pub open spec fn gs_input_prim_view(a: Option<SpecArraySpecifier>) -> SpecConversionError {
    match a {
        Some(SpecArraySpecifier::ExplicitlySized(SpecExpr::IntConst(size))) => SpecConversionError::WrongGeometryInputDim(size as usize),
        _ => SpecConversionError::WrongGeometryInput,
    }
}

/// What the geometry stage gives for the function `f`: the first check that fails, in order (one
/// parameter, the input, possibly followed by a second one that the stage does not read; an input given by a type name, with an array that tells the input primitive and a
/// valid output layout; the input type is the previous stage's return type; the return type names
/// a struct; no composite field), else the returned struct and its fields as outputs `spsl_g_NAME`.
pub open spec fn spec_gs(
    f: SpecFunctionDefinition,
    structs: Seq<SpecStructSpecifier>,
    prev_ret_ty: SpecStructSpecifier,
) -> Result<(SpecStructSpecifier, Seq<SpecSingleDeclaration>), SpecConversionError> {
    let args = f.prototype.parameters;
    if args.len() < 1 || args.len() > 2 {
        Err(SpecConversionError::WrongNumberOfArgs(1, args.len() as usize))
    } else {
        let input = arg_type(args[0]);
        match spec_ty_name(input) {
            Err(e) => Err(e),
            Ok(name) => match gs_input_error(input) {
                Some(e) => Err(e),
                None => if prev_ret_ty.name != Some(name) {
                    Err(SpecConversionError::UnknownInputType(name))
                } else {
                    match spec_ret_ty(f.prototype.ty.ty, structs) {
                        Err(e) => Err(e),
                        Ok(s) => match spec_fields_decls(s.fields, "spsl_g_"@) {
                            Err(e) => Err(e),
                            Ok(d) => Ok((s, d)),
                        },
                    }
                },
            },
        }
    }
}

/// Check the geometry function `concat_map_prim` against the previous stage, whose return type is
/// `prev_ret_ty`, and give its return type and its outputs.
pub fn check_geometry_shader(
    concat_map_prim: &FunctionDefinition,
    structs: &[StructSpecifier],
    prev_ret_ty: &StructSpecifier,
) -> (res: Result<(StructSpecifier, Vec<SingleDeclaration>), GLSLConversionError>)
    ensures
        stage_result(res) == spec_gs(concat_map_prim@, seq_view(structs@), prev_ret_ty@),
{
    let fn_args = &concat_map_prim.prototype.parameters;
    if fn_args.len() < 1 || fn_args.len() > 2 {
        return Err(GLSLConversionError::WrongNumberOfArgs(1, fn_args.len()));
    }
    let input = fn_arg_as_fully_spec_ty(&fn_args[0]);
    let input_ty_name = match get_ty_name_from_fully_spec_ty(&input) {
        Ok(n) => n,
        Err(e) => {
            return Err(e);
        },
    };
    match guess_gs_input_prim(&input.ty.array_specifier) {
        Ok(_) => {},
        Err(e) => {
            return Err(e);
        },
    }
    match get_gs_output_layout_metadata(&input.qualifier) {
        Ok(_) => {},
        Err(e) => {
            return Err(e);
        },
    }
    let same = match &prev_ret_ty.name {
        Some(n) => str_eq(n.as_str(), input_ty_name.as_str()),
        None => false,
    };
    if !same {
        return Err(GLSLConversionError::UnknownInputType(input_ty_name));
    }
    let ret_ty = match get_fn_ret_ty(concat_map_prim, structs) {
        Ok(r) => r,
        Err(e) => {
            return Err(e);
        },
    };
    proof {
        reveal_strlit("spsl_g_");
        crate::syntax::lemma_fields_view(ret_ty.fields@);
        assert(seq_view(ret_ty.fields@) =~= ret_ty@.fields);
    }
    match fields_to_single_decls(ret_ty.fields.as_slice(), "spsl_g_") {
        Ok(outputs) => Ok((ret_ty, outputs)),
        Err(e) => Err(e),
    }
}

/// What the fragment stage gives for `map_fragment` after a stage whose return type is
/// `prev_ret_ty`: the first check that fails, in order (one parameter, given by a type name; that
/// type is the previous stage's return type; the return type names a struct; no composite field),
/// else the returned struct and its fields as outputs `spsl_f_NAME`.
pub open spec fn spec_fs(
    f: SpecFunctionDefinition,
    structs: Seq<SpecStructSpecifier>,
    prev_ret_ty: SpecStructSpecifier,
) -> Result<(SpecStructSpecifier, Seq<SpecSingleDeclaration>), SpecConversionError> {
    match spec_fn1_input(f) {
        Err(e) => Err(e),
        Ok(name) => if prev_ret_ty.name != Some(name) {
            Err(SpecConversionError::UnknownInputType(name))
        } else {
            match spec_ret_ty(f.prototype.ty.ty, structs) {
                Err(e) => Err(e),
                Ok(r) => match spec_fields_decls(r.fields, "spsl_f_"@) {
                    Err(e) => Err(e),
                    Ok(d) => Ok((r, d)),
                },
            }
        },
    }
}

/// Check the fragment function `map_fragment` against the previous stage, whose return type is
/// `prev_ret_ty`, and give its return type and its outputs.
pub fn check_fragment_shader(
    map_fragment: &FunctionDefinition,
    structs: &[StructSpecifier],
    prev_ret_ty: &StructSpecifier,
) -> (res: Result<(StructSpecifier, Vec<SingleDeclaration>), GLSLConversionError>)
    ensures
        stage_result(res) == spec_fs(map_fragment@, seq_view(structs@), prev_ret_ty@),
{
    let input_ty_name = match get_fn1_input_ty_name(map_fragment) {
        Ok(n) => n,
        Err(e) => {
            return Err(e);
        },
    };
    let same = match &prev_ret_ty.name {
        Some(n) => str_eq(n.as_str(), input_ty_name.as_str()),
        None => false,
    };
    if !same {
        return Err(GLSLConversionError::UnknownInputType(input_ty_name));
    }
    let ret_ty = match get_fn_ret_ty(map_fragment, structs) {
        Ok(r) => r,
        Err(e) => {
            return Err(e);
        },
    };
    proof {
        reveal_strlit("spsl_f_");
        crate::syntax::lemma_fields_view(ret_ty.fields@);
        assert(seq_view(ret_ty.fields@) =~= ret_ty@.fields);
    }
    match fields_to_single_decls(ret_ty.fields.as_slice(), "spsl_f_") {
        Ok(outputs) => Ok((ret_ty, outputs)),
        Err(e) => Err(e),
    }
}

} // verus!

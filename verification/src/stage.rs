use vstd::prelude::*;

use crate::duplicate::{duplicate_opt, Duplicate};
use crate::text::{decimal, str_eq, write_decimal};
use crate::syntax::{
    concat_map, lemma_concat_map_push, lemma_fields_view, opt_view,
    seq_view, ArraySpecifier, Expr, FullySpecifiedType, FunctionDefinition,
    FunctionParameterDeclaration, GLSLConversionError, LayoutQualifier, LayoutQualifierSpec,
    SingleDeclaration, SpecArraySpecifier, SpecExpr, SpecFullySpecifiedType,
    SpecFunctionDefinition, SpecFunctionParameterDeclaration, SpecLayoutQualifier,
    SpecLayoutQualifierSpec, SpecSingleDeclaration, SpecStructFieldSpecifier,
    SpecTypeQualifier, SpecTypeQualifierSpec, StorageQualifier, StructSpecifier, TypeQualifier,
    TypeQualifierSpec,
};

verus! {

/// The qualifier of the `i`-th vertex input: `layout (location = i) in`, followed by the
/// qualifiers that the input already had.
pub open spec fn input_qualifier(i: usize, q: Option<SpecTypeQualifier>) -> SpecTypeQualifier {
    let layout = SpecLayoutQualifier {
        ids: seq![SpecLayoutQualifierSpec::Identifier("location"@, Some(SpecExpr::IntConst(i as i32)))],
    };
    let base = seq![SpecTypeQualifierSpec::Layout(layout), SpecTypeQualifierSpec::Storage(StorageQualifier::In)];
    SpecTypeQualifier {
        qualifiers: match q {
            Some(q) => base + q.qualifiers,
            None => base,
        },
    }
}

/// Create a vertex's input qualifier based on the index and the qualifier the input already has.
pub fn vertex_shader_input_qualifier(i: usize, ty_qual: &Option<TypeQualifier>) -> (res: TypeQualifier)
    ensures
        res@ == input_qualifier(i, opt_view(*ty_qual)),
{
    let mut ids: Vec<LayoutQualifierSpec> = Vec::new();
    ids.push(LayoutQualifierSpec::Identifier("location".to_owned(), Some(Expr::IntConst(#[verifier::truncate] (i as i32)))));
    proof {
        reveal_strlit("location");
        assert(seq_view(ids@) =~= seq![SpecLayoutQualifierSpec::Identifier("location"@, Some(SpecExpr::IntConst(i as i32)))]);
    }
    let layout_qualifier = LayoutQualifier { ids };
    let ghost lq = layout_qualifier@;
    let mut qualifiers: Vec<TypeQualifierSpec> = Vec::new();
    qualifiers.push(TypeQualifierSpec::Layout(layout_qualifier));
    qualifiers.push(TypeQualifierSpec::Storage(StorageQualifier::In));
    proof {
        assert(qualifiers@[0]@ == SpecTypeQualifierSpec::Layout(lq));
        assert(seq_view(qualifiers@) =~= input_qualifier(i, None).qualifiers);
    }
    match ty_qual {
        Some(qual) => {
            let ghost base = qualifiers@;
            let extra = qual.duplicate();
            let n = extra.qualifiers.len();
            let mut j: usize = 0;
            while j < n
                invariant
                    n == extra.qualifiers@.len(),
                    extra@ == qual@,
                    j <= n,
                    qualifiers@.len() == 2 + j,
                    qualifiers@.take(2) == base,
                    forall|t: int| 0 <= t < j ==> #[trigger] qualifiers@[2 + t]@ == extra.qualifiers@[t]@,
                decreases n - j,
            {
                qualifiers.push(extra.qualifiers[j].duplicate());
                assert(qualifiers@.take(2) =~= base);
                j = j + 1;
            }
            proof {
                assert forall|t: int| 0 <= t < qualifiers@.len() implies seq_view(qualifiers@)[t]
                    == input_qualifier(i, opt_view(*ty_qual)).qualifiers[t] by {
                    if t < 2 {
                        assert(qualifiers@.take(2)[t] == qualifiers@[t]);
                        assert(seq_view(base)[t] == input_qualifier(i, None).qualifiers[t]);
                    } else {
                        let u = t - 2;
                        assert(qualifiers@[2 + u]@ == extra.qualifiers@[u]@);
                        assert(extra@.qualifiers[u] == qual@.qualifiers[u]);
                    }
                }
                assert(seq_view(qualifiers@) =~= input_qualifier(i, opt_view(*ty_qual)).qualifiers);
            }
            TypeQualifier { qualifiers }
        },
        None => TypeQualifier { qualifiers },
    }
}

/// The vertex input declared by the `i`-th parameter of `map_vertex`: a named parameter becomes an
/// input with the qualifier of `input_qualifier`; an unnamed one declares nothing.
pub open spec fn input_at(i: usize, arg: SpecFunctionParameterDeclaration) -> Seq<SpecSingleDeclaration> {
    match arg {
        SpecFunctionParameterDeclaration::Named(q, d) => seq![SpecSingleDeclaration {
            ty: SpecFullySpecifiedType { qualifier: Some(input_qualifier(i, q)), ty: d.ty },
            name: Some(d.name),
            array_specifier: d.array_spec,
            initializer: None,
        }],
        SpecFunctionParameterDeclaration::Unnamed(..) => Seq::empty(),
    }
}

/// The vertex inputs declared by the parameters `args`, in order.
pub open spec fn inputs_of(args: Seq<SpecFunctionParameterDeclaration>) -> Seq<SpecSingleDeclaration>
    decreases args.len(),
{
    if args.len() == 0 {
        Seq::empty()
    } else {
        inputs_of(args.drop_last()) + input_at((args.len() - 1) as usize, args.last())
    }
}

/// Making the `i`-th parameter of `map_vertex` unnamed removes its input and only it: the inputs
/// before and after it, with their locations, stay as they were.
pub proof fn lemma_unnamed_parameter_drops_its_input(
    args: Seq<SpecFunctionParameterDeclaration>,
    i: int,
    q: Option<SpecTypeQualifier>,
)
    requires
        0 <= i < args.len(),
        args[i] is Named,
    ensures
        ({
            let before = inputs_of(args.take(i));
            let after = inputs_of(args).skip(before.len() + 1int);
            let unnamed = SpecFunctionParameterDeclaration::Unnamed(q, args[i]->Named_1.ty);
            &&& inputs_of(args) == before + input_at(i as usize, args[i]) + after
            &&& inputs_of(args.update(i, unnamed)) == before + after
        }),
    decreases args.len(),
{
    let before = inputs_of(args.take(i));
    let unnamed = SpecFunctionParameterDeclaration::Unnamed(q, args[i]->Named_1.ty);
    let args2 = args.update(i, unnamed);
    if i == args.len() - 1 {
        assert(args.drop_last() =~= args.take(i));
        assert(args2.drop_last() =~= args.take(i));
        assert(input_at(i as usize, args[i]).len() == 1);
        assert(inputs_of(args).skip(before.len() + 1int) =~= Seq::<SpecSingleDeclaration>::empty());
    } else {
        let prev = args.drop_last();
        assert(prev.take(i) =~= args.take(i));
        assert(prev[i] == args[i]);
        lemma_unnamed_parameter_drops_its_input(prev, i, q);
        assert(args2.drop_last() =~= prev.update(i, unnamed));
        assert(args2.last() == args.last());
        let after_prev = inputs_of(prev).skip(before.len() + 1int);
        let last = input_at((args.len() - 1) as usize, args.last());
        assert(inputs_of(args) == inputs_of(prev) + last);
        assert(inputs_of(args2) == inputs_of(args2.drop_last()) + input_at((args2.len() - 1) as usize, args2.last()));
        assert(inputs_of(args).skip(before.len() + 1int) =~= after_prev + last);
    }
}

/// Extract the vertex shader inputs from a list of arguments.
pub fn vertex_shader_inputs(args: &[FunctionParameterDeclaration]) -> (res: Result<Vec<SingleDeclaration>, GLSLConversionError>)
    ensures
        match res {
            Ok(inputs) => seq_view(inputs@) == inputs_of(seq_view(args@)),
            Err(_) => false,
        },
{
    let mut inputs: Vec<SingleDeclaration> = Vec::new();
    let n = args.len();
    let mut i: usize = 0;
    while i < n
        invariant
            n == args@.len(),
            i <= n,
            seq_view(inputs@) == inputs_of(seq_view(args@).take(i as int)),
        decreases n - i,
    {
        let ghost before = inputs@;
        match &args[i] {
            FunctionParameterDeclaration::Named(ty_qual, decl) => {
                let qualifier = vertex_shader_input_qualifier(i, ty_qual);
                let ty = decl.ty.duplicate();
                let name = Some(decl.name.clone());
                let array_spec = duplicate_opt(&decl.array_spec);
                let sd = SingleDeclaration {
                    ty: FullySpecifiedType { qualifier: Some(qualifier), ty },
                    name,
                    array_specifier: array_spec,
                    initializer: None,
                };
                inputs.push(sd);
            },
            _ => {},
        }
        proof {
            let a = seq_view(args@);
            assert(a.take(i + 1).drop_last() =~= a.take(i as int));
            assert(a.take(i + 1).last() == args@[i as int]@);
            assert(seq_view(inputs@) =~= seq_view(before) + input_at(i, args@[i as int]@));
        }
        i = i + 1;
    }
    proof {
        assert(seq_view(args@).take(n as int) =~= seq_view(args@));
    }
    Ok(inputs)
}

/// The input primitive of a geometry shader whose input array has `size` vertices.
pub open spec fn gs_input_prim_name(size: i32) -> Option<Seq<char>> {
    if size == 1 {
        Some("points"@)
    } else if size == 2 {
        Some("lines"@)
    } else if size == 3 {
        Some("triangles"@)
    } else if size == 4 {
        Some("lines_adjacency"@)
    } else if size == 6 {
        Some("triangles_adjacency"@)
    } else {
        None
    }
}

/// Guess the input primitive of a geometry shader from the size of its input array.
pub fn guess_gs_input_prim(array_specifier: &Option<ArraySpecifier>) -> (res: Result<LayoutQualifierSpec, GLSLConversionError>)
    ensures
        match opt_view(*array_specifier) {
            Some(SpecArraySpecifier::ExplicitlySized(SpecExpr::IntConst(size))) => match gs_input_prim_name(size) {
                Some(name) => res matches Ok(spec) && spec@ == SpecLayoutQualifierSpec::Identifier(name, None),
                None => res matches Err(GLSLConversionError::WrongGeometryInputDim(dim)) && dim == size as usize,
            },
            _ => res matches Err(GLSLConversionError::WrongGeometryInput),
        },
{
    proof {
        reveal_strlit("points");
        reveal_strlit("lines");
        reveal_strlit("triangles");
        reveal_strlit("lines_adjacency");
        reveal_strlit("triangles_adjacency");
    }
    match array_specifier {
        Some(ArraySpecifier::ExplicitlySized(Expr::IntConst(size))) => {
            let size = *size;
            if size == 1 {
                Ok(LayoutQualifierSpec::Identifier("points".to_owned(), None))
            } else if size == 2 {
                Ok(LayoutQualifierSpec::Identifier("lines".to_owned(), None))
            } else if size == 3 {
                Ok(LayoutQualifierSpec::Identifier("triangles".to_owned(), None))
            } else if size == 4 {
                Ok(LayoutQualifierSpec::Identifier("lines_adjacency".to_owned(), None))
            } else if size == 6 {
                Ok(LayoutQualifierSpec::Identifier("triangles_adjacency".to_owned(), None))
            } else {
                Err(GLSLConversionError::WrongGeometryInputDim(size as usize))
            }
        },
        _ => Err(GLSLConversionError::WrongGeometryInput),
    }
}

/// The output primitives that a geometry shader may emit.
pub open spec fn valid_gs_output_prim(s: Seq<char>) -> bool {
    s == "points"@ || s == "line_strip"@ || s == "triangle_strip"@
}

/// Check that a geometry shader's output primitive is supported.
pub fn check_gs_output_prim(s: &str) -> (res: Result<(), GLSLConversionError>)
    ensures
        res is Ok <==> valid_gs_output_prim(s@),
        res is Err ==> res matches Err(GLSLConversionError::WrongGeometryOutputLayout),
{
    if str_eq(s, "points") || str_eq(s, "line_strip") || str_eq(s, "triangle_strip") {
        Ok(())
    } else {
        Err(GLSLConversionError::WrongGeometryOutputLayout)
    }
}

/// The layout of a geometry shader's output, when its qualifier reads
/// `layout (prim, max_vertices = n) out` with a supported output primitive `prim`.
pub open spec fn gs_output_layout(q: Option<SpecTypeQualifier>) -> Option<SpecLayoutQualifier> {
    match q {
        Some(q) => {
            if q.qualifiers.len() == 2 && q.qualifiers[1] == SpecTypeQualifierSpec::Storage(StorageQualifier::Out) {
                match q.qualifiers[0] {
                    SpecTypeQualifierSpec::Layout(l) => {
                        if l.ids.len() == 2 {
                            match (l.ids[0], l.ids[1]) {
                                (
                                    SpecLayoutQualifierSpec::Identifier(prim, None),
                                    SpecLayoutQualifierSpec::Identifier(max_vertices, Some(SpecExpr::IntConst(_))),
                                ) => {
                                    if max_vertices == "max_vertices"@ && valid_gs_output_prim(prim) {
                                        Some(l)
                                    } else {
                                        None
                                    }
                                },
                                _ => None,
                            }
                        } else {
                            None
                        }
                    },
                    _ => None,
                }
            } else {
                None
            }
        },
        None => None,
    }
}

/// Get the layout metadata of a geometry shader's output.
pub fn get_gs_output_layout_metadata(qual: &Option<TypeQualifier>) -> (res: Result<LayoutQualifier, GLSLConversionError>)
    ensures
        match gs_output_layout(opt_view(*qual)) {
            Some(l) => res matches Ok(layout) && layout@ == l,
            None => res matches Err(GLSLConversionError::WrongGeometryOutputLayout),
        },
{
    let qual = match qual {
        Some(q) => q,
        None => {
            return Err(GLSLConversionError::WrongGeometryOutputLayout);
        },
    };
    if qual.qualifiers.len() != 2 {
        return Err(GLSLConversionError::WrongGeometryOutputLayout);
    }
    let is_out = match &qual.qualifiers[1] {
        TypeQualifierSpec::Storage(StorageQualifier::Out) => true,
        _ => false,
    };
    if !is_out {
        return Err(GLSLConversionError::WrongGeometryOutputLayout);
    }
    match &qual.qualifiers[0] {
        TypeQualifierSpec::Layout(layout_qual) => {
            if layout_qual.ids.len() != 2 {
                return Err(GLSLConversionError::WrongGeometryOutputLayout);
            }
            match (&layout_qual.ids[0], &layout_qual.ids[1]) {
                (
                    LayoutQualifierSpec::Identifier(output_prim_str, None),
                    LayoutQualifierSpec::Identifier(max_vertices_str, Some(Expr::IntConst(_))),
                ) => {
                    proof {
                        reveal_strlit("max_vertices");
                    }
                    if str_eq(max_vertices_str.as_str(), "max_vertices") {
                        match check_gs_output_prim(output_prim_str.as_str()) {
                            Ok(()) => Ok(layout_qual.duplicate()),
                            Err(e) => Err(e),
                        }
                    } else {
                        Err(GLSLConversionError::WrongGeometryOutputLayout)
                    }
                },
                _ => Err(GLSLConversionError::WrongGeometryOutputLayout),
            }
        },
        _ => Err(GLSLConversionError::WrongGeometryOutputLayout),
    }
}

/// The names of the functions that a pipeline module reserves for its stages.
pub open spec fn is_special_function(name: Seq<char>) -> bool {
    name == "map_vertex"@ || name == "concat_map_prim"@ || name == "map_fragment"@
}

/// The function itself, unless it is one of the reserved stage functions.
pub open spec fn keep_if_ordinary(f: SpecFunctionDefinition) -> Seq<SpecFunctionDefinition> {
    if is_special_function(f.prototype.name) {
        Seq::empty()
    } else {
        seq![f]
    }
}

/// The functions of `fs` that are not reserved stage functions, in order.
pub open spec fn ordinary_functions(fs: Seq<SpecFunctionDefinition>) -> Seq<SpecFunctionDefinition> {
    concat_map(fs, |f: SpecFunctionDefinition| keep_if_ordinary(f))
}

/// No reserved stage function is kept among the ordinary functions, and every function that is
/// kept comes from the given list.
pub proof fn lemma_ordinary_functions(fs: Seq<SpecFunctionDefinition>)
    ensures
        forall|k: int| 0 <= k < ordinary_functions(fs).len() ==> {
            let f = #[trigger] ordinary_functions(fs)[k];
            &&& !is_special_function(f.prototype.name)
            &&& fs.contains(f)
        },
    decreases fs.len(),
{
    let g = |f: SpecFunctionDefinition| keep_if_ordinary(f);
    if fs.len() > 0 {
        lemma_ordinary_functions(fs.drop_last());
        let prev = ordinary_functions(fs.drop_last());
        assert(ordinary_functions(fs) == concat_map(fs, g));
        assert(prev == concat_map(fs.drop_last(), g));
        assert forall|k: int| 0 <= k < ordinary_functions(fs).len() implies {
            let f = #[trigger] ordinary_functions(fs)[k];
            &&& !is_special_function(f.prototype.name)
            &&& fs.contains(f)
        } by {
            let f = ordinary_functions(fs)[k];
            if k < prev.len() {
                assert(prev[k] == f);
                assert(fs.drop_last().contains(f));
                let j = choose|j: int| 0 <= j < fs.drop_last().len() && fs.drop_last()[j] == f;
                assert(fs[j] == f);
            } else {
                assert(f == fs.last());
                assert(fs[fs.len() - 1] == f);
            }
        }
    }
}

/// The functions of `functions` that are not reserved stage functions, in order.
pub fn filter_out_special_functions(functions: &[FunctionDefinition]) -> (res: Vec<&FunctionDefinition>)
    ensures
        seq_view(res@) == ordinary_functions(seq_view(functions@)),
{
    let ghost k = |f: SpecFunctionDefinition| keep_if_ordinary(f);
    let mut res: Vec<&FunctionDefinition> = Vec::new();
    let n = functions.len();
    let mut i: usize = 0;
    proof {
        reveal_strlit("map_vertex");
        reveal_strlit("concat_map_prim");
        reveal_strlit("map_fragment");
    }
    while i < n
        invariant
            n == functions@.len(),
            i <= n,
            k == (|f: SpecFunctionDefinition| keep_if_ordinary(f)),
            seq_view(res@) == concat_map(seq_view(functions@).take(i as int), k),
        decreases n - i,
    {
        let ghost before = res@;
        let f = &functions[i];
        let name = f.prototype.name.as_str();
        if !(str_eq(name, "map_vertex") || str_eq(name, "concat_map_prim") || str_eq(name, "map_fragment")) {
            res.push(f);
        }
        proof {
            let d = functions@[i as int]@;
            assert(seq_view(functions@)[i as int] == d);
            assert(seq_view(functions@).take(i + 1) =~= seq_view(functions@).take(i as int).push(d));
            lemma_concat_map_push(seq_view(functions@).take(i as int), d, k);
            assert(seq_view(res@) =~= seq_view(before) + keep_if_ordinary(d));
        }
        i = i + 1;
    }
    proof {
        assert(seq_view(functions@).take(n as int) =~= seq_view(functions@));
    }
    res
}

/// The text that names the `i`-th argument of `map_vertex` in the call of `main`: its name, or
/// `spsl_unusedI` for an unnamed one.
pub open spec fn input_arg_text(i: usize, arg: SpecFunctionParameterDeclaration) -> Seq<char> {
    match arg {
        SpecFunctionParameterDeclaration::Named(_, d) => d.name,
        SpecFunctionParameterDeclaration::Unnamed(..) => "spsl_unused"@ + decimal(i as nat),
    }
}

/// Sink an argument of a function.
pub fn sink_vertex_shader_input_arg(sink: &mut String, i: usize, arg: &FunctionParameterDeclaration)
    ensures
        final(sink)@ == old(sink)@ + input_arg_text(i, arg@),
{
    match arg {
        FunctionParameterDeclaration::Named(_, d) => {
            sink.append(d.name.as_str());
        },
        FunctionParameterDeclaration::Unnamed(..) => {
            sink.append("spsl_unused");
            write_decimal(sink, i);
            assert(final(sink)@ =~= old(sink)@ + input_arg_text(i, arg@));
        },
    }
}

/// Whether a function argument is named.
pub fn is_fn_arg_named(arg: &FunctionParameterDeclaration) -> (res: bool)
    ensures
        res == (arg@ is Named),
{
    match arg {
        FunctionParameterDeclaration::Named(..) => true,
        FunctionParameterDeclaration::Unnamed(..) => false,
    }
}

/// The arguments after the first, among the first `n` of `params`: each named one, preceded by
/// `, `.
pub open spec fn later_args_text(params: Seq<SpecFunctionParameterDeclaration>, n: int) -> Seq<char>
    decreases n,
{
    if n <= 1 {
        Seq::empty()
    } else {
        later_args_text(params, n - 1) + if params[n - 1] is Named {
            ", "@ + input_arg_text((n - 1) as usize, params[n - 1])
        } else {
            Seq::empty()
        }
    }
}

/// The argument list of the call of `map_vertex`: the first argument, then each later named one.
pub open spec fn input_args_text(params: Seq<SpecFunctionParameterDeclaration>) -> Seq<char> {
    if params.len() == 0 {
        Seq::empty()
    } else {
        input_arg_text(0, params[0]) + later_args_text(params, params.len() as int)
    }
}

/// Sink the arguments of the map_vertex function.
pub fn sink_vertex_shader_input_args(sink: &mut String, map_vertex: &FunctionDefinition)
    ensures
        final(sink)@ == old(sink)@ + input_args_text(map_vertex@.prototype.parameters),
{
    let args = &map_vertex.prototype.parameters;
    let ghost params = map_vertex@.prototype.parameters;
    let n = args.len();
    if n > 0 {
        sink_vertex_shader_input_arg(sink, 0, &args[0]);
        let ghost start = sink@;
        let mut i: usize = 1;
        while i < n
            invariant
                n == args@.len(),
                params == seq_view(args@),
                1 <= i <= n,
                sink@ == start + later_args_text(params, i as int),
            decreases n - i,
        {
            let arg = &args[i];
            if is_fn_arg_named(arg) {
                sink.append(", ");
                sink_vertex_shader_input_arg(sink, i, arg);
            }
            proof {
                reveal_strlit(", ");
                assert(params[i as int] == arg@);
                assert(sink@ =~= start + later_args_text(params, i + 1));
            }
            i = i + 1;
        }
        assert(final(sink)@ =~= old(sink)@ + input_args_text(params));
    } else {
        assert(final(sink)@ =~= old(sink)@ + input_args_text(params));
    }
}

/// The assignment of each output field of a vertex, from the fields `fields`:
/// `  spsl_v_NAME = v.NAME;` for each name that the fields declare.
pub open spec fn output_assigns(fields: Seq<SpecStructFieldSpecifier>) -> Seq<char> {
    concat_map(fields, |f: SpecStructFieldSpecifier| concat_map(f.identifiers,
        |id: (Seq<char>, Option<SpecArraySpecifier>)| output_assign(id.0)))
}

/// The assignment of the output `name` from the vertex `v`.
pub open spec fn output_assign(name: Seq<char>) -> Seq<char> {
    "  spsl_v_"@ + name + " = v."@ + name + ";\n"@
}

/// Sink a vertex shader's output: the name of the output type goes to `sink`; the assignment of
/// the position and of each further field of the output goes to `assigns`.
pub fn sink_vertex_shader_output(sink: &mut String, assigns: &mut String, ty: &StructSpecifier)
    requires
        ty.name is Some,
        ty.fields@.len() >= 1,
    ensures
        final(sink)@ == old(sink)@ + ty@.name.unwrap(),
        final(assigns)@ == old(assigns)@ + "  gl_Position = v.spsl_Position;\n"@ + output_assigns(ty@.fields.drop_first()),
{
    match &ty.name {
        Some(name) => {
            sink.append(name.as_str());
        },
        None => {},
    }
    assigns.append("  gl_Position = v.spsl_Position;\n");
    let ghost start = assigns@;
    let ghost fields = ty@.fields.drop_first();
    let ghost fo = |f: SpecStructFieldSpecifier| concat_map(f.identifiers,
        |id: (Seq<char>, Option<SpecArraySpecifier>)| output_assign(id.0));
    proof {
        lemma_fields_view(ty.fields@);
    }
    let n = ty.fields.len();
    let mut i: usize = 1;
    while i < n
        invariant
            n == ty.fields@.len(),
            1 <= i <= n,
            fields == ty@.fields.drop_first(),
            fields.len() == n - 1,
            forall|t: int| 0 <= t < n - 1 ==> #[trigger] fields[t] == ty.fields@[t + 1]@,
            fo == (|f: SpecStructFieldSpecifier| concat_map(f.identifiers,
                |id: (Seq<char>, Option<SpecArraySpecifier>)| output_assign(id.0))),
            assigns@ == start + concat_map(fields.take(i - 1), fo),
        decreases n - i,
    {
        let field = &ty.fields[i];
        let ghost fstart = assigns@;
        let ghost ids = field@.identifiers;
        let ghost g = |id: (Seq<char>, Option<SpecArraySpecifier>)| output_assign(id.0);
        let m = field.identifiers.len();
        let mut j: usize = 0;
        while j < m
            invariant
                m == field.identifiers@.len(),
                j <= m,
                ids == field@.identifiers,
                g == (|id: (Seq<char>, Option<SpecArraySpecifier>)| output_assign(id.0)),
                assigns@ == fstart + concat_map(ids.take(j as int), g),
            decreases m - j,
        {
            let identifier = field.identifiers[j].0.as_str();
            assigns.append("  spsl_v_");
            assigns.append(identifier);
            assigns.append(" = v.");
            assigns.append(identifier);
            assigns.append(";\n");
            proof {
                let id = ids[j as int];
                assert(id.0 == identifier@);
                assert(ids.take(j + 1) =~= ids.take(j as int).push(id));
                lemma_concat_map_push(ids.take(j as int), id, g);
                assert(assigns@ =~= fstart + concat_map(ids.take(j + 1), g));
            }
            j = j + 1;
        }
        proof {
            assert(ids.take(m as int) =~= ids);
            let fv = fields[i - 1];
            assert(fv == field@);
            assert(fields.take(i as int) =~= fields.take(i - 1).push(fv));
            lemma_concat_map_push(fields.take(i - 1), fv, fo);
            assert(assigns@ =~= start + concat_map(fields.take(i as int), fo));
        }
        i = i + 1;
    }
    proof {
        assert(fields.take(n - 1) =~= fields);
    }
}

} // verus!

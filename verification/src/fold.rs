use vstd::prelude::*;

use crate::duplicate::{duplicate_opt_string, Duplicate};
use crate::module::{blocks_in, functions_in, structs_in, uniforms_in, Module};
use crate::pipeline::{
    as_input, as_input_qualifier, field_decls, fields_to_single_decls, get_fn1_input_ty_name,
    get_fn_ret_ty, inputs_from_outputs, lemma_struct_named_in, out_qualifier, ret_struct,
    check_fragment_shader, check_geometry_shader, spec_fields_decls, spec_fn1_input, spec_fs, spec_gs, spec_ret_ty,
    spec_vertex_outputs, stage_result, struct_named, structs_have_fields, vertex_shader_outputs,
};
use crate::stage::{
    filter_out_special_functions, input_args_text, input_at, input_qualifier, inputs_of,
    lemma_ordinary_functions, ordinary_functions, output_assigns, sink_vertex_shader_input_args,
    sink_vertex_shader_output, vertex_shader_inputs,
};
use crate::syntax::{
    concat_map, lemma_concat_map_push, lemma_fields_view, seq_view, Block, FunctionDefinition,
    FunctionParameterDeclaration, FunctionPrototype, GLSLConversionError, SingleDeclaration,
    SpecBlock, SpecConversionError, SpecExternalDeclaration, SpecFunctionDefinition,
    SpecFunctionParameterDeclaration, SpecFunctionPrototype, SpecSingleDeclaration,
    SpecStructFieldSpecifier, SpecStructSpecifier, SpecTypeQualifierSpec, StructFieldSpecifier,
    StructSpecifier,
};
use crate::printable::{block_printable, decl_printable, prototype_printable, struct_printable};
use crate::writer::{
    block_ok, decl_ok, field_ok, fields_ok, param_ok, prototype_ok, qualifier_ok, show_block,
    show_function_prototype, show_single_declaration, show_struct, shown_block,
    shown_function_prototype, shown_single_declaration, shown_struct, struct_ok,
};

verus! {

// ---- What the writer can print.

/// A list of fields is printable exactly when each field is.
pub proof fn lemma_fields_ok(fs: Seq<SpecStructFieldSpecifier>)
    ensures
        fields_ok(fs) <==> forall|i: int| 0 <= i < fs.len() ==> field_ok(#[trigger] fs[i]),
    decreases fs.len(),
{
    if fs.len() > 0 {
        lemma_fields_ok(fs.drop_last());
        if forall|i: int| 0 <= i < fs.len() ==> field_ok(#[trigger] fs[i]) {
            assert forall|i: int| 0 <= i < fs.drop_last().len() implies field_ok(#[trigger] fs.drop_last()[i]) by {
                assert(fs.drop_last()[i] == fs[i]);
            }
            assert(field_ok(fs[fs.len() - 1]));
        }
        if fields_ok(fs) {
            assert forall|i: int| 0 <= i < fs.len() implies field_ok(#[trigger] fs[i]) by {
                if i < fs.len() - 1 {
                    assert(fs.drop_last()[i] == fs[i]);
                }
            }
        }
    }
}

/// The outputs declared by printable fields are printable and named.
pub proof fn lemma_fields_decls_ok(fs: Seq<SpecStructFieldSpecifier>, prefix: Seq<char>)
    requires
        fields_ok(fs),
    ensures
        spec_fields_decls(fs, prefix) matches Ok(d) ==> forall|k: int| 0 <= k < d.len() ==> {
            &&& decl_ok(#[trigger] d[k])
            &&& d[k].name is Some
        },
    decreases fs.len(),
{
    if fs.len() > 0 {
        lemma_fields_decls_ok(fs.drop_last(), prefix);
        let f = fs.last();
        if let Ok(d) = spec_fields_decls(fs, prefix) {
            if let Ok(d0) = spec_fields_decls(fs.drop_last(), prefix) {
                let e = field_decls(f, prefix);
                assert(d == d0 + e);
                lemma_fields_ok(fs);
                assert(field_ok(fs[fs.len() - 1]));
                let q = out_qualifier(f.qualifier);
                assert(qualifier_ok(q)) by {
                    assert forall|i: int| 0 <= i < q.qualifiers.len() implies match #[trigger] q.qualifiers[i] {
                        SpecTypeQualifierSpec::Layout(l) => l.ids.len() >= 1,
                        _ => true,
                    } by {
                        if let Some(fq) = f.qualifier {
                            if i < fq.qualifiers.len() {
                                assert(q.qualifiers[i] == fq.qualifiers[i]);
                            }
                        }
                    }
                }
                assert forall|k: int| 0 <= k < d.len() implies {
                    &&& decl_ok(#[trigger] d[k])
                    &&& d[k].name is Some
                } by {
                    if k >= d0.len() {
                        assert(d[k] == e[k - d0.len()]);
                    } else {
                        assert(d[k] == d0[k]);
                    }
                }
            }
        }
    }
}

/// The vertex inputs declared by printable parameters are printable.
pub proof fn lemma_inputs_ok(args: Seq<SpecFunctionParameterDeclaration>)
    requires
        forall|i: int| 0 <= i < args.len() ==> param_ok(#[trigger] args[i]),
    ensures
        forall|k: int| 0 <= k < inputs_of(args).len() ==> decl_ok(#[trigger] inputs_of(args)[k]),
    decreases args.len(),
{
    if args.len() > 0 {
        let prev = args.drop_last();
        assert forall|i: int| 0 <= i < prev.len() implies param_ok(#[trigger] prev[i]) by {
            assert(prev[i] == args[i]);
        }
        lemma_inputs_ok(prev);
        let last = args.last();
        assert(param_ok(args[args.len() - 1]));
        let i = (args.len() - 1) as usize;
        let extra = input_at(i, last);
        if let SpecFunctionParameterDeclaration::Named(q, d) = last {
            let iq = input_qualifier(i, q);
            assert(qualifier_ok(iq)) by {
                assert forall|j: int| 0 <= j < iq.qualifiers.len() implies match #[trigger] iq.qualifiers[j] {
                    SpecTypeQualifierSpec::Layout(l) => l.ids.len() >= 1,
                    _ => true,
                } by {
                    if let Some(qq) = q {
                        if j >= 2 {
                            assert(iq.qualifiers[j] == qq.qualifiers[j - 2]);
                        }
                    }
                }
            }
            assert(decl_ok(extra[0]));
        }
        assert forall|k: int| 0 <= k < inputs_of(args).len() implies decl_ok(#[trigger] inputs_of(args)[k]) by {
            let p = inputs_of(prev);
            assert(inputs_of(args) == p + extra);
            if k >= p.len() {
                assert(inputs_of(args)[k] == extra[k - p.len()]);
            } else {
                assert(inputs_of(args)[k] == p[k]);
            }
        }
    }
}

/// A struct named among printable structs is printable.
pub proof fn lemma_struct_named_ok(structs: Seq<SpecStructSpecifier>, n: Seq<char>)
    requires
        forall|i: int| 0 <= i < structs.len() ==> struct_ok(#[trigger] structs[i]),
        structs_have_fields(structs),
    ensures
        struct_named(structs, n) matches Some(s) ==> struct_ok(s) && s.fields.len() >= 1 && s.name == Some(n),
    decreases structs.len(),
{
    lemma_struct_named_in(structs, n);
    if let Some(s) = struct_named(structs, n) {
        let j = choose|j: int| 0 <= j < structs.len() && structs[j] == s;
        assert(struct_ok(structs[j]));
        assert(structs[j].fields.len() >= 1);
        lemma_struct_named_name(structs, n);
    }
}

/// The struct found for a name bears that name.
pub proof fn lemma_struct_named_name(structs: Seq<SpecStructSpecifier>, n: Seq<char>)
    ensures
        struct_named(structs, n) matches Some(s) ==> s.name == Some(n),
    decreases structs.len(),
{
    if structs.len() > 0 && structs[0].name != Some(n) {
        lemma_struct_named_name(structs.drop_first(), n);
    }
}

// ---- Declarations, functions and stage texts.

/// A declaration as an external declaration: its text and `;`.
pub open spec fn decl_text(d: SpecSingleDeclaration) -> Seq<char> {
    shown_single_declaration(d) + ";\n"@
}

/// The declarations `ds`, each as an external declaration, in order.
pub open spec fn decls_text(ds: Seq<SpecSingleDeclaration>) -> Seq<char> {
    concat_map(ds, |d: SpecSingleDeclaration| decl_text(d))
}

/// Sink declarations as external declarations.
pub fn sink_single_as_ext_decls(sink: &mut String, decls: &[SingleDeclaration])
    requires
        forall|i: int| 0 <= i < decls@.len() ==> decl_ok(#[trigger] decls@[i]@),
    ensures
        final(sink)@ == old(sink)@ + decls_text(seq_view(decls@)),
{
    let ghost ds = seq_view(decls@);
    let ghost start = sink@;
    let ghost g = |d: SpecSingleDeclaration| decl_text(d);
    let n = decls.len();
    let mut i: usize = 0;
    assert(ds.take(0) =~= Seq::<SpecSingleDeclaration>::empty());
    while i < n
        invariant
            n == decls@.len(),
            ds == seq_view(decls@),
            g == (|d: SpecSingleDeclaration| decl_text(d)),
            forall|j: int| 0 <= j < decls@.len() ==> decl_ok(#[trigger] decls@[j]@),
            i <= n,
            sink@ == start + concat_map(ds.take(i as int), g),
        decreases n - i,
    {
        assert(decl_ok(decls@[i as int]@));
        show_single_declaration(sink, &decls[i]);
        sink.append(";\n");
        proof {
            reveal_strlit(";\n");
            assert(ds[i as int] == decls@[i as int]@);
            assert(ds.take(i + 1) =~= ds.take(i as int).push(ds[i as int]));
            lemma_concat_map_push(ds.take(i as int), ds[i as int], g);
            assert(sink@ =~= start + concat_map(ds.take(i + 1), g));
        }
        i = i + 1;
    }
    assert(ds.take(n as int) =~= ds);
}

/// The parameter itself when it is named; nothing when it is not.
pub open spec fn keep_if_named(p: SpecFunctionParameterDeclaration) -> Seq<SpecFunctionParameterDeclaration> {
    if p is Named {
        seq![p]
    } else {
        Seq::empty()
    }
}

/// The named parameters of `ps`, in order.
pub open spec fn named_params(ps: Seq<SpecFunctionParameterDeclaration>) -> Seq<SpecFunctionParameterDeclaration> {
    concat_map(ps, |p: SpecFunctionParameterDeclaration| keep_if_named(p))
}

/// `f` without its unnamed parameters, which its body cannot use.
pub open spec fn without_unused_args(f: SpecFunctionDefinition) -> SpecFunctionDefinition {
    SpecFunctionDefinition {
        prototype: SpecFunctionPrototype { parameters: named_params(f.prototype.parameters), ..f.prototype },
        ..f
    }
}

/// Every parameter kept is named and comes from the list.
pub proof fn lemma_named_params(ps: Seq<SpecFunctionParameterDeclaration>)
    ensures
        forall|k: int| 0 <= k < named_params(ps).len() ==> {
            &&& #[trigger] named_params(ps)[k] is Named
            &&& ps.contains(named_params(ps)[k])
        },
    decreases ps.len(),
{
    let g = |p: SpecFunctionParameterDeclaration| keep_if_named(p);
    if ps.len() > 0 {
        lemma_named_params(ps.drop_last());
        let prev = named_params(ps.drop_last());
        assert(named_params(ps) == concat_map(ps, g));
        assert(prev == concat_map(ps.drop_last(), g));
        assert forall|k: int| 0 <= k < named_params(ps).len() implies {
            &&& #[trigger] named_params(ps)[k] is Named
            &&& ps.contains(named_params(ps)[k])
        } by {
            let p = named_params(ps)[k];
            if k < prev.len() {
                assert(prev[k] == p);
                let j = choose|j: int| 0 <= j < ps.drop_last().len() && ps.drop_last()[j] == p;
                assert(ps[j] == p);
            } else {
                assert(p == ps.last());
                assert(ps[ps.len() - 1] == p);
            }
        }
    }
}

/// Remove the unnamed parameters of a function.
pub fn remove_unused_args_fn(f: &FunctionDefinition) -> (res: FunctionDefinition)
    ensures
        res@ == without_unused_args(f@),
{
    let ghost ps = f@.prototype.parameters;
    let ghost g = |p: SpecFunctionParameterDeclaration| keep_if_named(p);
    let mut parameters: Vec<FunctionParameterDeclaration> = Vec::new();
    let n = f.prototype.parameters.len();
    let mut i: usize = 0;
    assert(ps.take(0) =~= Seq::<SpecFunctionParameterDeclaration>::empty());
    while i < n
        invariant
            n == f.prototype.parameters@.len(),
            ps == f@.prototype.parameters,
            g == (|p: SpecFunctionParameterDeclaration| keep_if_named(p)),
            i <= n,
            seq_view(parameters@) == concat_map(ps.take(i as int), g),
        decreases n - i,
    {
        let ghost before = seq_view(parameters@);
        let p = &f.prototype.parameters[i];
        match p {
            FunctionParameterDeclaration::Named(..) => {
                parameters.push(p.duplicate());
            },
            FunctionParameterDeclaration::Unnamed(..) => {},
        }
        proof {
            assert(ps[i as int] == p@);
            assert(ps.take(i + 1) =~= ps.take(i as int).push(p@));
            lemma_concat_map_push(ps.take(i as int), p@, g);
            assert(seq_view(parameters@) =~= before + keep_if_named(p@));
        }
        i = i + 1;
    }
    assert(ps.take(n as int) =~= ps);
    FunctionDefinition {
        prototype: FunctionPrototype { ty: f.prototype.ty.duplicate(), name: f.prototype.name.clone(), parameters },
        statement: f.statement.clone(),
    }
}

/// The text of a function definition: its prototype as the writer gives it, then its body.
pub open spec fn function_text(f: SpecFunctionDefinition) -> Seq<char> {
    shown_function_prototype(f.prototype) + " {\n"@ + f.statement + "}\n"@
}

/// Sink a function definition: the writer gives its prototype; the body, which the syntax tree
/// keeps as the text of its statements, goes between braces.
pub fn show_function_definition(sink: &mut String, f: &FunctionDefinition)
    requires
        prototype_ok(f@.prototype),
    ensures
        final(sink)@ == old(sink)@ + function_text(f@),
{
    show_function_prototype(sink, &f.prototype);
    sink.append(" {\n");
    sink.append(f.statement.as_str());
    sink.append("}\n");
    proof {
        reveal_strlit(" {\n");
        reveal_strlit("}\n");
    }
    assert(final(sink)@ =~= old(sink)@ + function_text(f@));
}

/// Removing the unnamed parameters keeps a prototype printable.
pub proof fn lemma_without_unused_args_ok(f: SpecFunctionDefinition)
    requires
        prototype_ok(f.prototype),
    ensures
        prototype_ok(without_unused_args(f).prototype),
{
    lemma_named_params(f.prototype.parameters);
    let ps = f.prototype.parameters;
    let np = named_params(ps);
    assert forall|i: int| 0 <= i < np.len() implies param_ok(#[trigger] np[i]) by {
        assert(np[i] is Named);
        assert(ps.contains(np[i]));
        let j = choose|j: int| 0 <= j < ps.len() && ps[j] == np[i];
        assert(param_ok(ps[j]));
    }
}

/// Every struct of `structs` is printable.
pub open spec fn structs_ok(structs: Seq<SpecStructSpecifier>) -> bool {
    forall|i: int| 0 <= i < structs.len() ==> struct_ok(#[trigger] structs[i])
}

/// What the vertex stage gives for `map_vertex`: the outputs of its return type, then the struct
/// that it names.
pub open spec fn spec_vs(
    f: SpecFunctionDefinition,
    structs: Seq<SpecStructSpecifier>,
) -> Result<(SpecStructSpecifier, Seq<SpecSingleDeclaration>), SpecConversionError> {
    match spec_vertex_outputs(f.prototype.ty, structs) {
        Err(e) => Err(e),
        Ok(d) => match spec_ret_ty(f.prototype.ty.ty, structs) {
            Err(e) => Err(e),
            Ok(r) => Ok((r, d)),
        },
    }
}

/// The text of the vertex shader of `map_vertex`, whose return type is `r` and whose outputs are
/// `outputs`: the inputs and outputs, the return type, the function without its unnamed
/// parameters, and a `main` that calls it and assigns the position and each output.
pub open spec fn vs_text(f: SpecFunctionDefinition, r: SpecStructSpecifier, outputs: Seq<SpecSingleDeclaration>) -> Seq<char> {
    let reduced = without_unused_args(f);
    decls_text(inputs_of(f.prototype.parameters)) + decls_text(outputs) + shown_struct(r) + function_text(reduced)
        + "void main() {\n  "@ + r.name.unwrap() + " v = map_vertex("@ + input_args_text(reduced.prototype.parameters)
        + ");\n"@ + "  gl_Position = v.spsl_Position;\n"@ + output_assigns(r.fields.drop_first()) + "}\n\n"@
}

/// Sink a vertex shader: write its text and give its return type and outputs; on an error,
/// nothing is written.
pub fn sink_vertex_shader(
    sink: &mut String,
    map_vertex: &FunctionDefinition,
    structs: &[StructSpecifier],
) -> (res: Result<(StructSpecifier, Vec<SingleDeclaration>), GLSLConversionError>)
    requires
        structs_have_fields(seq_view(structs@)),
        structs_ok(seq_view(structs@)),
        prototype_ok(map_vertex@.prototype),
    ensures
        stage_result(res) == spec_vs(map_vertex@, seq_view(structs@)),
        match res {
            Ok((r, o)) => final(sink)@ == old(sink)@ + vs_text(map_vertex@, r@, seq_view(o@)),
            Err(_) => final(sink)@ == old(sink)@,
        },
{
    let ghost all = seq_view(structs@);
    let inputs = match vertex_shader_inputs(map_vertex.prototype.parameters.as_slice()) {
        Ok(i) => i,
        Err(e) => {
            return Err(e);
        },
    };
    let outputs = match vertex_shader_outputs(&map_vertex.prototype.ty, structs) {
        Ok(o) => o,
        Err(e) => {
            return Err(e);
        },
    };
    let ret_ty = match get_fn_ret_ty(map_vertex, structs) {
        Ok(r) => r,
        Err(e) => {
            return Err(e);
        },
    };
    proof {
        let params = map_vertex@.prototype.parameters;
        assert(seq_view(map_vertex.prototype.parameters@) == params);
        assert forall|i: int| 0 <= i < params.len() implies param_ok(#[trigger] params[i]) by {}
        lemma_inputs_ok(params);
        assert forall|i: int| 0 <= i < inputs@.len() implies decl_ok(#[trigger] inputs@[i]@) by {
            assert(seq_view(inputs@)[i] == inputs@[i]@);
        }
        let t = map_vertex@.prototype.ty.ty;
        let n = t.ty->TypeName_0;
        lemma_struct_named_ok(all, n);
        let s = ret_struct(t, all).unwrap();
        assert(ret_ty@ == s);
        lemma_fields_ok(s.fields);
        lemma_fields_ok(s.fields.drop_first());
        assert forall|i: int| 0 <= i < s.fields.drop_first().len() implies field_ok(#[trigger] s.fields.drop_first()[i]) by {
            assert(s.fields.drop_first()[i] == s.fields[i + 1]);
        }
        lemma_fields_decls_ok(s.fields.drop_first(), "spsl_v_"@);
        assert forall|i: int| 0 <= i < outputs@.len() implies decl_ok(#[trigger] outputs@[i]@) by {
            assert(seq_view(outputs@)[i] == outputs@[i]@);
        }
        lemma_fields_view(ret_ty.fields@);
        lemma_without_unused_args_ok(map_vertex@);
    }
    let ghost start = sink@;
    sink_single_as_ext_decls(sink, inputs.as_slice());
    sink_single_as_ext_decls(sink, outputs.as_slice());
    show_struct(sink, &ret_ty);
    let reduced = remove_unused_args_fn(map_vertex);
    show_function_definition(sink, &reduced);
    sink.append("void main() {\n  ");
    let mut assigns = String::new();
    sink_vertex_shader_output(sink, &mut assigns, &ret_ty);
    sink.append(" v = map_vertex(");
    sink_vertex_shader_input_args(sink, &reduced);
    sink.append(");\n");
    sink.append(assigns.as_str());
    sink.append("}\n\n");
    proof {
        reveal_strlit("void main() {\n  ");
        reveal_strlit(" v = map_vertex(");
        reveal_strlit(");\n");
        reveal_strlit("}\n\n");
        reveal_strlit("  gl_Position = v.spsl_Position;\n");
        assert(sink@ =~= start + vs_text(map_vertex@, ret_ty@, seq_view(outputs@)));
    }
    Ok((ret_ty, outputs))
}

/// A stage input read from a printable output is printable, under the same name.
pub proof fn lemma_as_input_ok(d: SpecSingleDeclaration)
    requires
        decl_ok(d),
    ensures
        decl_ok(as_input(d)),
        as_input(d).name == d.name,
{
    if let Some(q) = d.ty.qualifier {
        let m = q.qualifiers.map_values(|x: SpecTypeQualifierSpec| as_input_qualifier(x));
        assert forall|i: int| 0 <= i < m.len() implies match #[trigger] m[i] {
            SpecTypeQualifierSpec::Layout(l) => l.ids.len() >= 1,
            _ => true,
        } by {
            assert(m[i] == as_input_qualifier(q.qualifiers[i]));
            assert(match q.qualifiers[i] {
                SpecTypeQualifierSpec::Layout(l) => l.ids.len() >= 1,
                _ => true,
            });
        }
    }
}

/// The names of `ins`, separated by `, `.
pub open spec fn names_text(ins: Seq<SpecSingleDeclaration>) -> Seq<char> {
    ins[0].name.unwrap() + concat_map(ins.drop_first(), |d: SpecSingleDeclaration| ", "@ + d.name.unwrap())
}

/// The inputs of a stage that reads the outputs `prev_outputs` of the stage before it.
pub open spec fn stage_inputs(prev_outputs: Seq<SpecSingleDeclaration>) -> Seq<SpecSingleDeclaration> {
    prev_outputs.map_values(|d: SpecSingleDeclaration| as_input(d))
}

/// The text `mid` with `pre` before it and `post` after it.
pub open spec fn surrounded(pre: Seq<char>, mid: Seq<char>, post: Seq<char>) -> Seq<char> {
    pre + mid + post
}

/// The argument list of an input's constructor holds every name, in order, separated by `, `: a
/// single name alone, and one more name after the others.
pub proof fn lemma_names_text(ins: Seq<SpecSingleDeclaration>, d: SpecSingleDeclaration)
    ensures
        names_text(seq![d]) == d.name.unwrap(),
        ins.len() >= 1 ==> names_text(ins.push(d)) == names_text(ins) + ", "@ + d.name.unwrap(),
{
    let g = |x: SpecSingleDeclaration| ", "@ + x.name.unwrap();
    assert(seq![d].drop_first() =~= Seq::<SpecSingleDeclaration>::empty());
    assert(names_text(seq![d]) =~= d.name.unwrap());
    if ins.len() >= 1 {
        assert(ins.push(d).drop_first() =~= ins.drop_first().push(d));
        assert(ins.push(d)[0] == ins[0]);
        lemma_concat_map_push(ins.drop_first(), d, g);
        assert(names_text(ins.push(d)) =~= names_text(ins) + ", "@ + d.name.unwrap());
    }
}

/// The copy of the first `n` fields of the result `o` to the outputs: `  OUTPUT = o.FIELD;` with the
/// first name of each field.
pub open spec fn copies_text(outs: Seq<SpecSingleDeclaration>, fields: Seq<SpecStructFieldSpecifier>, n: int) -> Seq<char>
    decreases n,
{
    if n <= 0 {
        Seq::empty()
    } else {
        copies_text(outs, fields, n - 1) + "  "@ + outs[n - 1].name.unwrap() + " = o."@ + fields[n - 1].identifiers[0].0 + ";\n"@
    }
}

/// The smaller of two lengths.
pub open spec fn min_len(a: nat, b: nat) -> int {
    if a <= b { a as int } else { b as int }
}

/// The text of the shader of a stage whose function `f`, called `call`, follows a stage whose
/// return type is `prev` and whose outputs are `prev_outputs`, with return type `r` and outputs
/// `outputs`: the inputs and outputs, both return types, the function without its unnamed
/// parameters, and a `main` that builds the input, calls the function and copies the result to the
/// outputs.
pub open spec fn stage_text(
    f: SpecFunctionDefinition,
    call: Seq<char>,
    prev: SpecStructSpecifier,
    prev_outputs: Seq<SpecSingleDeclaration>,
    r: SpecStructSpecifier,
    outputs: Seq<SpecSingleDeclaration>,
) -> Seq<char> {
    let inputs = prev_outputs.map_values(|d: SpecSingleDeclaration| as_input(d));
    let p = prev.name.unwrap();
    decls_text(inputs) + decls_text(outputs) + shown_struct(prev) + shown_struct(r) + function_text(without_unused_args(f))
        + "void main() {\n  "@ + p + " i = "@ + p + "("@ + names_text(inputs) + ");\n"@
        + "  "@ + r.name.unwrap() + " o = "@ + call + "(i);\n"@
        + copies_text(outputs, r.fields, min_len(outputs.len(), r.fields.len())) + "}\n\n"@
}

/// The `main` of a stage builds its input from every output of the stage before it: the input's
/// constructor takes the names of all those outputs.
pub proof fn lemma_stage_main_reads_every_output(
    f: SpecFunctionDefinition,
    call: Seq<char>,
    prev: SpecStructSpecifier,
    prev_outputs: Seq<SpecSingleDeclaration>,
    r: SpecStructSpecifier,
    outputs: Seq<SpecSingleDeclaration>,
)
    ensures
        exists|pre: Seq<char>, post: Seq<char>|
            stage_text(f, call, prev, prev_outputs, r, outputs) == #[trigger] surrounded(
                pre,
                "void main() {\n  "@ + prev.name.unwrap() + " i = "@ + prev.name.unwrap() + "("@
                    + names_text(stage_inputs(prev_outputs)) + ");\n"@,
                post,
            ),
{
    let inputs = prev_outputs.map_values(|d: SpecSingleDeclaration| as_input(d));
    let p = prev.name.unwrap();
    let pre = decls_text(inputs) + decls_text(outputs) + shown_struct(prev) + shown_struct(r) + function_text(without_unused_args(f));
    let post = "  "@ + r.name.unwrap() + " o = "@ + call + "(i);\n"@
        + copies_text(outputs, r.fields, min_len(outputs.len(), r.fields.len())) + "}\n\n"@;
    assert(inputs == stage_inputs(prev_outputs));
    let mid = "void main() {\n  "@ + prev.name.unwrap() + " i = "@ + prev.name.unwrap() + "("@
        + names_text(stage_inputs(prev_outputs)) + ");\n"@;
    assert(stage_text(f, call, prev, prev_outputs, r, outputs) =~= surrounded(pre, mid, post));
}

/// The text of the geometry shader of `concat_map_prim`.
pub open spec fn gs_text(
    f: SpecFunctionDefinition,
    prev: SpecStructSpecifier,
    prev_outputs: Seq<SpecSingleDeclaration>,
    r: SpecStructSpecifier,
    outputs: Seq<SpecSingleDeclaration>,
) -> Seq<char> {
    stage_text(f, "concat_map_prim"@, prev, prev_outputs, r, outputs)
}

/// The text of the fragment shader of `map_fragment`.
pub open spec fn fs_text(
    f: SpecFunctionDefinition,
    prev: SpecStructSpecifier,
    prev_outputs: Seq<SpecSingleDeclaration>,
    r: SpecStructSpecifier,
    outputs: Seq<SpecSingleDeclaration>,
) -> Seq<char> {
    stage_text(f, "map_fragment"@, prev, prev_outputs, r, outputs)
}

/// What the writing of a stage needs of the stage before it: a printable return type and at least
/// one printable, named output.
pub open spec fn prev_stage_ok(prev_ret_ty: SpecStructSpecifier, prev_outputs: Seq<SpecSingleDeclaration>) -> bool {
    &&& struct_ok(prev_ret_ty)
    &&& prev_outputs.len() >= 1
    &&& forall|i: int| 0 <= i < prev_outputs.len() ==> decl_ok(#[trigger] prev_outputs[i]) && prev_outputs[i].name is Some
}

/// The return type and outputs that a stage's checks give for a printable function are printable
/// and named.
proof fn lemma_stage_ok(
    f: SpecFunctionDefinition,
    structs: Seq<SpecStructSpecifier>,
    prefix: Seq<char>,
    r: SpecStructSpecifier,
    outputs: Seq<SpecSingleDeclaration>,
)
    requires
        structs_ok(structs),
        spec_ret_ty(f.prototype.ty.ty, structs) == Ok::<SpecStructSpecifier, SpecConversionError>(r),
        spec_fields_decls(r.fields, prefix) == Ok::<Seq<SpecSingleDeclaration>, SpecConversionError>(outputs),
    ensures
        struct_ok(r),
        r.name is Some,
        forall|i: int| 0 <= i < r.fields.len() ==> (#[trigger] r.fields[i]).identifiers.len() >= 1,
        forall|i: int| 0 <= i < outputs.len() ==> decl_ok(#[trigger] outputs[i]) && outputs[i].name is Some,
{
    let t = f.prototype.ty.ty;
    lemma_struct_named_in(structs, t.ty->TypeName_0);
    lemma_struct_named_name(structs, t.ty->TypeName_0);
    let j = choose|j: int| 0 <= j < structs.len() && structs[j] == r;
    assert(struct_ok(structs[j]));
    lemma_fields_ok(r.fields);
    lemma_fields_decls_ok(r.fields, prefix);
    assert forall|i: int| 0 <= i < r.fields.len() implies (#[trigger] r.fields[i]).identifiers.len() >= 1 by {
        assert(field_ok(r.fields[i]));
    }
}

/// Sink the names of the inputs, separated by `, `.
fn sink_input_names(sink: &mut String, inputs: &[SingleDeclaration])
    requires
        inputs@.len() >= 1,
        forall|i: int| 0 <= i < inputs@.len() ==> (#[trigger] inputs@[i])@.name is Some,
    ensures
        final(sink)@ == old(sink)@ + names_text(seq_view(inputs@)),
{
    let ghost ins = seq_view(inputs@);
    let ghost g = |d: SpecSingleDeclaration| ", "@ + d.name.unwrap();
    match &inputs[0].name {
        Some(n) => sink.append(n.as_str()),
        None => {},
    }
    let ghost start = sink@;
    let n = inputs.len();
    let mut i: usize = 1;
    assert(ins.drop_first().take(0) =~= Seq::<SpecSingleDeclaration>::empty());
    while i < n
        invariant
            n == inputs@.len(),
            ins == seq_view(inputs@),
            g == (|d: SpecSingleDeclaration| ", "@ + d.name.unwrap()),
            forall|j: int| 0 <= j < inputs@.len() ==> (#[trigger] inputs@[j])@.name is Some,
            1 <= i <= n,
            sink@ == start + concat_map(ins.drop_first().take(i - 1), g),
        decreases n - i,
    {
        sink.append(", ");
        match &inputs[i].name {
            Some(name) => sink.append(name.as_str()),
            None => {},
        }
        proof {
            reveal_strlit(", ");
            let rest = ins.drop_first();
            let d = rest[i - 1];
            assert(d == inputs@[i as int]@);
            assert(rest.take(i as int) =~= rest.take(i - 1).push(d));
            lemma_concat_map_push(rest.take(i - 1), d, g);
            assert(sink@ =~= start + concat_map(rest.take(i as int), g));
        }
        i = i + 1;
    }
    assert(ins.drop_first().take(n - 1) =~= ins.drop_first());
    assert(final(sink)@ =~= old(sink)@ + names_text(ins));
}

/// Sink the copy of the fields of the result `o` to the outputs.
fn sink_output_copies(sink: &mut String, outputs: &[SingleDeclaration], fields: &[StructFieldSpecifier])
    requires
        forall|i: int| 0 <= i < outputs@.len() ==> (#[trigger] outputs@[i])@.name is Some,
        forall|i: int| 0 <= i < fields@.len() ==> (#[trigger] fields@[i]).identifiers@.len() >= 1,
    ensures
        final(sink)@ == old(sink)@ + copies_text(seq_view(outputs@), seq_view(fields@), min_len(outputs@.len(), fields@.len())),
{
    let n = if outputs.len() <= fields.len() { outputs.len() } else { fields.len() };
    let ghost start = sink@;
    let mut i: usize = 0;
    while i < n
        invariant
            n == min_len(outputs@.len(), fields@.len()),
            forall|j: int| 0 <= j < outputs@.len() ==> (#[trigger] outputs@[j])@.name is Some,
            forall|j: int| 0 <= j < fields@.len() ==> (#[trigger] fields@[j]).identifiers@.len() >= 1,
            i <= n,
            sink@ == start + copies_text(seq_view(outputs@), seq_view(fields@), i as int),
        decreases n - i,
    {
        sink.append("  ");
        match &outputs[i].name {
            Some(name) => sink.append(name.as_str()),
            None => {},
        }
        sink.append(" = o.");
        sink.append(fields[i].identifiers[0].0.as_str());
        sink.append(";\n");
        proof {
            reveal_strlit("  ");
            reveal_strlit(" = o.");
            reveal_strlit(";\n");
            assert(seq_view(outputs@)[i as int] == outputs@[i as int]@);
            assert(seq_view(fields@)[i as int] == fields@[i as int]@);
            assert(fields@[i as int]@.identifiers[0] == crate::syntax::identifier_view(fields@[i as int].identifiers@[0]));
            assert(sink@ =~= start + copies_text(seq_view(outputs@), seq_view(fields@), i + 1));
        }
        i = i + 1;
    }
}

/// Sink the text of a stage whose function `f` is called `call`, after its checks gave its return
/// type `ret_ty` and its outputs.
#[verifier::spinoff_prover]
#[verifier::rlimit(40)]
fn sink_stage(
    sink: &mut String,
    f: &FunctionDefinition,
    call: &str,
    prev_ret_ty: &StructSpecifier,
    prev_inputs: &[SingleDeclaration],
    ret_ty: &StructSpecifier,
    outputs: &[SingleDeclaration],
)
    requires
        prototype_ok(f@.prototype),
        prev_stage_ok(prev_ret_ty@, seq_view(prev_inputs@)),
        prev_ret_ty@.name is Some,
        struct_ok(ret_ty@),
        ret_ty@.name is Some,
        forall|i: int| 0 <= i < ret_ty@.fields.len() ==> (#[trigger] ret_ty@.fields[i]).identifiers.len() >= 1,
        forall|i: int| 0 <= i < outputs@.len() ==> decl_ok(#[trigger] seq_view(outputs@)[i]) && seq_view(outputs@)[i].name is Some,
    ensures
        final(sink)@ == old(sink)@ + stage_text(f@, call@, prev_ret_ty@, seq_view(prev_inputs@), ret_ty@, seq_view(outputs@)),
{
    let inputs = inputs_from_outputs(prev_inputs);
    proof {
        let pv = seq_view(prev_inputs@);
        assert forall|i: int| 0 <= i < outputs@.len() implies decl_ok(#[trigger] outputs@[i]@) && outputs@[i]@.name is Some by {
            assert(seq_view(outputs@)[i] == outputs@[i]@);
        }
        assert forall|i: int| 0 <= i < inputs@.len() implies decl_ok(#[trigger] inputs@[i]@) && inputs@[i]@.name is Some by {
            assert(seq_view(inputs@).len() == prev_inputs@.len());
            assert(seq_view(inputs@)[i] == inputs@[i]@);
            assert(pv[i] == prev_inputs@[i]@);
            assert(inputs@[i]@ == as_input(pv[i]));
            assert(decl_ok(pv[i]));
            lemma_as_input_ok(pv[i]);
        }
        lemma_fields_view(ret_ty.fields@);
        assert forall|i: int| 0 <= i < ret_ty.fields@.len() implies (#[trigger] ret_ty.fields@[i]).identifiers@.len() >= 1 by {
            assert(ret_ty@.fields[i] == ret_ty.fields@[i]@);
            assert(ret_ty@.fields[i].identifiers.len() >= 1);
        }
        lemma_without_unused_args_ok(f@);
    }
    let ghost start = sink@;
    let ghost ins = seq_view(prev_inputs@).map_values(|d: SpecSingleDeclaration| as_input(d));
    assert(seq_view(inputs@) == ins);
    sink_single_as_ext_decls(sink, inputs.as_slice());
    sink_single_as_ext_decls(sink, outputs);
    show_struct(sink, prev_ret_ty);
    show_struct(sink, ret_ty);
    let reduced = remove_unused_args_fn(f);
    show_function_definition(sink, &reduced);
    let ghost head = sink@;
    assert(head =~= start + decls_text(ins) + decls_text(seq_view(outputs@)) + shown_struct(prev_ret_ty@)
        + shown_struct(ret_ty@) + function_text(without_unused_args(f@)));
    sink.append("void main() {\n  ");
    match &prev_ret_ty.name {
        Some(n) => {
            sink.append(n.as_str());
            sink.append(" i = ");
            sink.append(n.as_str());
        },
        None => {},
    }
    sink.append("(");
    sink_input_names(sink, inputs.as_slice());
    sink.append(");\n");
    let ghost mid = sink@;
    proof {
        reveal_strlit("void main() {\n  ");
        reveal_strlit(" i = ");
        reveal_strlit("(");
        reveal_strlit(");\n");
        let p = prev_ret_ty@.name.unwrap();
        assert(mid =~= head + "void main() {\n  "@ + p + " i = "@ + p + "("@ + names_text(ins) + ");\n"@);
    }
    sink.append("  ");
    match &ret_ty.name {
        Some(n) => sink.append(n.as_str()),
        None => {},
    }
    sink.append(" o = ");
    sink.append(call);
    sink.append("(i);\n");
    sink_output_copies(sink, outputs, ret_ty.fields.as_slice());
    sink.append("}\n\n");
    proof {
        reveal_strlit("  ");
        reveal_strlit(" o = ");
        reveal_strlit("(i);\n");
        reveal_strlit("}\n\n");
        assert(seq_view(ret_ty.fields@) == ret_ty@.fields);
        assert(sink@ =~= mid + "  "@ + ret_ty@.name.unwrap() + " o = "@ + call@ + "(i);\n"@
            + copies_text(seq_view(outputs@), ret_ty@.fields, min_len(outputs@.len(), ret_ty@.fields.len())) + "}\n\n"@);
        assert(sink@ =~= start + stage_text(f@, call@, prev_ret_ty@, seq_view(prev_inputs@), ret_ty@, seq_view(outputs@)));
    }
}

/// Sink a geometry shader: check `concat_map_prim` against the previous stage, write its text and
/// give its return type and outputs; on an error, nothing is written.
pub fn sink_geometry_shader(
    sink: &mut String,
    concat_map_prim: &FunctionDefinition,
    structs: &[StructSpecifier],
    prev_ret_ty: &StructSpecifier,
    prev_inputs: &[SingleDeclaration],
) -> (res: Result<(StructSpecifier, Vec<SingleDeclaration>), GLSLConversionError>)
    requires
        structs_ok(seq_view(structs@)),
        prototype_ok(concat_map_prim@.prototype),
        spec_gs(concat_map_prim@, seq_view(structs@), prev_ret_ty@) is Ok ==> prev_stage_ok(prev_ret_ty@, seq_view(prev_inputs@)),
    ensures
        stage_result(res) == spec_gs(concat_map_prim@, seq_view(structs@), prev_ret_ty@),
        match res {
            Ok((r, o)) => final(sink)@ == old(sink)@ + gs_text(concat_map_prim@, prev_ret_ty@, seq_view(prev_inputs@), r@, seq_view(o@)),
            Err(_) => final(sink)@ == old(sink)@,
        },
{
    let (ret_ty, outputs) = match check_geometry_shader(concat_map_prim, structs, prev_ret_ty) {
        Ok(r) => r,
        Err(e) => {
            return Err(e);
        },
    };
    proof {
        reveal_strlit("spsl_g_");
        lemma_stage_ok(concat_map_prim@, seq_view(structs@), "spsl_g_"@, ret_ty@, seq_view(outputs@));
        reveal_strlit("concat_map_prim");
    }
    sink_stage(sink, concat_map_prim, "concat_map_prim", prev_ret_ty, prev_inputs, &ret_ty, outputs.as_slice());
    Ok((ret_ty, outputs))
}

/// Sink a fragment shader: check `map_fragment` against the previous stage, write its text and
/// give its return type and outputs; on an error, nothing is written.
pub fn sink_fragment_shader(
    sink: &mut String,
    map_fragment: &FunctionDefinition,
    structs: &[StructSpecifier],
    prev_ret_ty: &StructSpecifier,
    prev_inputs: &[SingleDeclaration],
) -> (res: Result<(StructSpecifier, Vec<SingleDeclaration>), GLSLConversionError>)
    requires
        structs_ok(seq_view(structs@)),
        prototype_ok(map_fragment@.prototype),
        spec_fs(map_fragment@, seq_view(structs@), prev_ret_ty@) is Ok ==> prev_stage_ok(prev_ret_ty@, seq_view(prev_inputs@)),
    ensures
        stage_result(res) == spec_fs(map_fragment@, seq_view(structs@), prev_ret_ty@),
        match res {
            Ok((r, o)) => final(sink)@ == old(sink)@ + fs_text(map_fragment@, prev_ret_ty@, seq_view(prev_inputs@), r@, seq_view(o@)),
            Err(_) => final(sink)@ == old(sink)@,
        },
{
    let (ret_ty, outputs) = match check_fragment_shader(map_fragment, structs, prev_ret_ty) {
        Ok(r) => r,
        Err(e) => {
            return Err(e);
        },
    };
    proof {
        reveal_strlit("spsl_f_");
        lemma_stage_ok(map_fragment@, seq_view(structs@), "spsl_f_"@, ret_ty@, seq_view(outputs@));
        reveal_strlit("map_fragment");
    }
    sink_stage(sink, map_fragment, "map_fragment", prev_ret_ty, prev_inputs, &ret_ty, outputs.as_slice());
    Ok((ret_ty, outputs))
}

// ---- Folding a module into its pipeline.

/// Module fold (pipeline): the text of each stage's shader, when a module holds all the functions
/// and structures that a workable pipeline needs.
pub struct ModuleFold {
    pub vs: String,
    pub gs: Option<String>,
    pub fs: String,
}

/// The functions of a module, in order.
pub open spec fn module_functions(m: Module) -> Seq<SpecFunctionDefinition> {
    concat_map(seq_view(m.glsl@), |d: SpecExternalDeclaration| functions_in(d))
}

/// The structs that a module declares, in order.
pub open spec fn module_structs(m: Module) -> Seq<SpecStructSpecifier> {
    concat_map(seq_view(m.glsl@), |d: SpecExternalDeclaration| structs_in(d))
}

/// The uniforms of a module, in order.
pub open spec fn module_uniforms(m: Module) -> Seq<SpecSingleDeclaration> {
    concat_map(seq_view(m.glsl@), |d: SpecExternalDeclaration| uniforms_in(d))
}

/// The blocks of a module, in order.
pub open spec fn module_blocks(m: Module) -> Seq<SpecBlock> {
    concat_map(seq_view(m.glsl@), |d: SpecExternalDeclaration| blocks_in(d))
}

/// The first function of `fs` called `n`, if any.
pub open spec fn function_named(fs: Seq<SpecFunctionDefinition>, n: Seq<char>) -> Option<SpecFunctionDefinition>
    decreases fs.len(),
{
    if fs.len() == 0 {
        None
    } else if fs[0].prototype.name == n {
        Some(fs[0])
    } else {
        function_named(fs.drop_first(), n)
    }
}

/// The function found by `function_named` is one of `fs`.
pub proof fn lemma_function_named_in(fs: Seq<SpecFunctionDefinition>, n: Seq<char>)
    ensures
        function_named(fs, n) matches Some(f) ==> fs.contains(f),
    decreases fs.len(),
{
    if fs.len() > 0 && fs[0].prototype.name != n {
        lemma_function_named_in(fs.drop_first(), n);
        if let Some(f) = function_named(fs.drop_first(), n) {
            let j = choose|j: int| 0 <= j < fs.drop_first().len() && fs.drop_first()[j] == f;
            assert(fs[j + 1] == f);
        }
    } else if fs.len() > 0 {
        assert(fs[0] == fs[0]);
    }
}

/// The struct `s` without its first field.
pub open spec fn without_first_field(s: SpecStructSpecifier) -> SpecStructSpecifier {
    SpecStructSpecifier { fields: s.fields.drop_first(), ..s }
}

/// The struct that the next stage sees of a vertex: its first field, the position, is reserved.
pub fn drop_first_field(s: &StructSpecifier) -> (res: StructSpecifier)
    requires
        s.fields@.len() >= 1,
    ensures
        res@ == without_first_field(s@),
{
    let mut fields: Vec<StructFieldSpecifier> = Vec::new();
    let n = s.fields.len();
    let mut i: usize = 1;
    while i < n
        invariant
            n == s.fields@.len(),
            1 <= i <= n,
            fields@.len() == i - 1,
            forall|j: int| 0 <= j < i - 1 ==> #[trigger] fields@[j]@ == s.fields@[j + 1]@,
        decreases n - i,
    {
        fields.push(s.fields[i].duplicate());
        i = i + 1;
    }
    let res = StructSpecifier { name: duplicate_opt_string(&s.name), fields };
    proof {
        lemma_fields_view(fields@);
        lemma_fields_view(s.fields@);
        assert forall|j: int| 0 <= j < res@.fields.len() implies res@.fields[j] == s@.fields.drop_first()[j] by {
            assert(res@.fields[j] == fields@[j]@);
            assert(s@.fields[j + 1] == s.fields@[j + 1]@);
        }
        assert(res@.fields =~= s@.fields.drop_first());
    }
    res
}

/// The shown structs of `structs`, but for those whose name is `hidden`: the return types of the
/// stages, which only exist in their own stage.
pub open spec fn structs_text(structs: Seq<SpecStructSpecifier>, hidden: Seq<Option<Seq<char>>>) -> Seq<char> {
    concat_map(structs, |s: SpecStructSpecifier| if hidden.contains(s.name) { Seq::empty() } else { shown_struct(s) })
}

/// The blocks `bs` as the writer gives them, in order.
pub open spec fn blocks_text(bs: Seq<SpecBlock>) -> Seq<char> {
    concat_map(bs, |b: SpecBlock| shown_block(b))
}

/// The functions `fs`, in order.
pub open spec fn functions_text(fs: Seq<SpecFunctionDefinition>) -> Seq<char> {
    concat_map(fs, |f: SpecFunctionDefinition| function_text(f))
}

/// What every stage of the pipeline of `m` shares: its structs but the stages' return types, its
/// uniforms, its blocks and its functions but the stage functions.
pub open spec fn common_text(m: Module, hidden: Seq<Option<Seq<char>>>) -> Seq<char> {
    structs_text(module_structs(m), hidden) + decls_text(module_uniforms(m)) + blocks_text(module_blocks(m))
        + functions_text(ordinary_functions(module_functions(m)))
}

/// The stage before the fragment stage: the vertex stage's return type without its position and its
/// outputs, or what `concat_map_prim` gives when the module defines it.
pub open spec fn prev_stage(
    m: Module,
    vr: SpecStructSpecifier,
    vo: Seq<SpecSingleDeclaration>,
) -> Result<(SpecStructSpecifier, Seq<SpecSingleDeclaration>), SpecConversionError> {
    match function_named(module_functions(m), "concat_map_prim"@) {
        None => Ok((without_first_field(vr), vo)),
        Some(c) => spec_gs(c, module_structs(m), without_first_field(vr)),
    }
}

/// The fold of the pipeline module `m`: the vertex shader's text, the geometry shader's text when
/// the module defines `concat_map_prim`, and the fragment shader's text; or the first error.
/// `map_vertex` and `map_fragment` are mandatory; `concat_map_prim` is optional. The vertex and
/// fragment shaders start with what the stages share.
pub open spec fn spec_fold(m: Module) -> Result<(Seq<char>, Option<Seq<char>>, Seq<char>), SpecConversionError> {
    let fns = module_functions(m);
    let structs = module_structs(m);
    let cp = function_named(fns, "concat_map_prim"@);
    match function_named(fns, "map_vertex"@) {
        None => Err(SpecConversionError::NoVertexShader),
        Some(mv) => match function_named(fns, "map_fragment"@) {
            None => Err(SpecConversionError::NoFragmentShader),
            Some(mf) => match spec_vs(mv, structs) {
                Err(e) => Err(e),
                Ok((vr, vo)) => match prev_stage(m, vr, vo) {
                    Err(e) => Err(e),
                    Ok((pr, po)) => match spec_fs(mf, structs, pr) {
                        Err(e) => Err(e),
                        Ok((fr, fo)) => {
                            let hidden = if cp is Some {
                                seq![without_first_field(vr).name, pr.name, fr.name]
                            } else {
                                seq![without_first_field(vr).name, fr.name]
                            };
                            let common = common_text(m, hidden);
                            let gs = match cp {
                                Some(c) => Some(gs_text(c, without_first_field(vr), vo, pr, po)),
                                None => None,
                            };
                            Ok((common + vs_text(mv, vr, vo), gs, common + fs_text(mf, pr, po, fr, fo)))
                        },
                    },
                },
            },
        },
    }
}

/// What the vertex and fragment shaders share comes first, in this order: the structs, the
/// uniforms, the interface blocks, then the ordinary functions, so every block is declared before
/// the functions that use it.
pub proof fn lemma_fold_prelude_order(m: Module)
    ensures
        spec_fold(m) matches Ok((vs, _, fs)) ==> exists|st: Seq<char>, v: Seq<char>, f: Seq<char>| {
            &&& vs == #[trigger] surrounded(
                st,
                decls_text(module_uniforms(m)) + blocks_text(module_blocks(m)) + functions_text(ordinary_functions(module_functions(m))),
                v,
            )
            &&& fs == #[trigger] surrounded(
                st,
                decls_text(module_uniforms(m)) + blocks_text(module_blocks(m)) + functions_text(ordinary_functions(module_functions(m))),
                f,
            )
        },
{
    let fns = module_functions(m);
    let structs = module_structs(m);
    let cp = function_named(fns, "concat_map_prim"@);
    if let Ok((vs, gs, fs)) = spec_fold(m) {
        let mv = function_named(fns, "map_vertex"@).unwrap();
        let mf = function_named(fns, "map_fragment"@).unwrap();
        let (vr, vo) = spec_vs(mv, structs)->Ok_0;
        let (pr, po) = prev_stage(m, vr, vo)->Ok_0;
        let (fr, fo) = spec_fs(mf, structs, pr)->Ok_0;
        let hidden = if cp is Some {
            seq![without_first_field(vr).name, pr.name, fr.name]
        } else {
            seq![without_first_field(vr).name, fr.name]
        };
        let st = structs_text(structs, hidden);
        let rest = decls_text(module_uniforms(m)) + blocks_text(module_blocks(m)) + functions_text(ordinary_functions(fns));
        assert(vs =~= surrounded(st, rest, vs_text(mv, vr, vo)));
        assert(fs =~= surrounded(st, rest, fs_text(mf, pr, po, fr, fo)));
    }
}

/// A fold has a geometry shader exactly when the module defines `concat_map_prim`.
pub proof fn lemma_fold_has_geometry_iff_defined(m: Module)
    ensures
        spec_fold(m) matches Ok((_, gs, _)) ==> (gs is Some <==> function_named(module_functions(m), "concat_map_prim"@) is Some),
{
}

/// The module can be printed and folded without fault: the writer can print each of its parts,
/// every struct has a field, and each stage that reads the stage before it, when its checks pass,
/// has an output of that stage to read.
pub open spec fn foldable(m: Module) -> bool {
    let fns = module_functions(m);
    let structs = module_structs(m);
    &&& structs_have_fields(structs)
    &&& structs_ok(structs)
    &&& forall|i: int| 0 <= i < module_uniforms(m).len() ==> decl_ok(#[trigger] module_uniforms(m)[i])
    &&& forall|i: int| 0 <= i < module_blocks(m).len() ==> block_ok(#[trigger] module_blocks(m)[i])
    &&& forall|i: int| 0 <= i < fns.len() ==> prototype_ok(#[trigger] fns[i].prototype)
    &&& stages_have_inputs(m)
}

/// Each stage after the vertex stage whose checks pass has an output of the stage before it to
/// read.
pub open spec fn stages_have_inputs(m: Module) -> bool {
    let fns = module_functions(m);
    let structs = module_structs(m);
    match (function_named(fns, "map_vertex"@), function_named(fns, "map_fragment"@)) {
        (Some(mv), Some(mf)) => match spec_vs(mv, structs) {
            Ok((vr, vo)) => {
                &&& match function_named(fns, "concat_map_prim"@) {
                    Some(c) => spec_gs(c, structs, without_first_field(vr)) is Ok ==> vo.len() >= 1,
                    None => true,
                }
                &&& match prev_stage(m, vr, vo) {
                    Ok((pr, po)) => spec_fs(mf, structs, pr) is Ok ==> po.len() >= 1,
                    Err(_) => true,
                }
            },
            Err(_) => true,
        },
        _ => true,
    }
}

/// Index of the first function of `fs` called `name`, if any.
fn find_function(fs: &[FunctionDefinition], name: &str) -> (res: Option<usize>)
    ensures
        match res {
            Some(i) => i < fs@.len() && function_named(seq_view(fs@), name@) == Some(fs@[i as int]@),
            None => function_named(seq_view(fs@), name@) is None,
        },
{
    let ghost all = seq_view(fs@);
    let n = fs.len();
    let mut i: usize = 0;
    assert(all.skip(0) =~= all);
    while i < n
        invariant
            n == fs@.len(),
            all == seq_view(fs@),
            i <= n,
            function_named(all, name@) == function_named(all.skip(i as int), name@),
        decreases n - i,
    {
        let ghost rest = all.skip(i as int);
        assert(rest[0] == fs@[i as int]@);
        assert(rest.drop_first() =~= all.skip(i + 1));
        if crate::text::str_eq(fs[i].prototype.name.as_str(), name) {
            return Some(i);
        }
        i = i + 1;
    }
    None
}

/// Whether `name` is one of `hidden`.
fn hidden_contains(hidden: &[Option<String>], name: &Option<String>) -> (res: bool)
    ensures
        res == hidden@.map_values(|h: Option<String>| crate::syntax::opt_string_view(h)).contains(crate::syntax::opt_string_view(*name)),
{
    let ghost hv = hidden@.map_values(|h: Option<String>| crate::syntax::opt_string_view(h));
    let ghost nv = crate::syntax::opt_string_view(*name);
    let n = hidden.len();
    let mut i: usize = 0;
    while i < n
        invariant
            n == hidden@.len(),
            hv == hidden@.map_values(|h: Option<String>| crate::syntax::opt_string_view(h)),
            nv == crate::syntax::opt_string_view(*name),
            i <= n,
            forall|j: int| 0 <= j < i ==> hv[j] != nv,
        decreases n - i,
    {
        let same = match &hidden[i] {
            Some(a) => match name {
                Some(b) => crate::text::str_eq(a.as_str(), b.as_str()),
                None => false,
            },
            None => name.is_none(),
        };
        proof {
            assert(hv[i as int] == crate::syntax::opt_string_view(hidden@[i as int]));
            match hidden@[i as int] {
                Some(a) => match name {
                    Some(b) => {
                        assert(hv[i as int] == Some(a@));
                        assert(nv == Some(b@));
                        if a@ != b@ {
                            assert(hv[i as int] != nv);
                        }
                    },
                    None => {},
                },
                None => {},
            }
        }
        assert(same == (hv[i as int] == nv));
        if same {
            assert(hv[i as int] == nv);
            return true;
        }
        i = i + 1;
    }
    false
}

/// Sink the structs of `structs`, but for those whose name is `hidden`.
fn sink_structs_except(sink: &mut String, structs: &[StructSpecifier], hidden: &[Option<String>])
    requires
        structs_ok(seq_view(structs@)),
    ensures
        final(sink)@ == old(sink)@ + structs_text(seq_view(structs@), hidden@.map_values(|h: Option<String>| crate::syntax::opt_string_view(h))),
{
    let ghost all = seq_view(structs@);
    let ghost hv = hidden@.map_values(|h: Option<String>| crate::syntax::opt_string_view(h));
    let ghost g = |s: SpecStructSpecifier| if hv.contains(s.name) { Seq::<char>::empty() } else { shown_struct(s) };
    let ghost start = sink@;
    let n = structs.len();
    let mut i: usize = 0;
    assert(all.take(0) =~= Seq::<SpecStructSpecifier>::empty());
    while i < n
        invariant
            n == structs@.len(),
            all == seq_view(structs@),
            structs_ok(all),
            hv == hidden@.map_values(|h: Option<String>| crate::syntax::opt_string_view(h)),
            g == (|s: SpecStructSpecifier| if hv.contains(s.name) { Seq::<char>::empty() } else { shown_struct(s) }),
            i <= n,
            sink@ == start + concat_map(all.take(i as int), g),
        decreases n - i,
    {
        let ghost before = sink@;
        let s = &structs[i];
        assert(all[i as int] == s@);
        assert(struct_ok(all[i as int]));
        if !hidden_contains(hidden, &s.name) {
            show_struct(sink, s);
        }
        proof {
            assert(s@.name == crate::syntax::opt_string_view(s.name));
            assert(all.take(i + 1) =~= all.take(i as int).push(s@));
            lemma_concat_map_push(all.take(i as int), s@, g);
            assert(sink@ =~= before + g(s@));
        }
        i = i + 1;
    }
    assert(all.take(n as int) =~= all);
}

/// Sink the blocks `blocks`, in order.
fn sink_blocks(sink: &mut String, blocks: &[Block])
    requires
        forall|i: int| 0 <= i < blocks@.len() ==> block_ok(#[trigger] blocks@[i]@),
    ensures
        final(sink)@ == old(sink)@ + blocks_text(seq_view(blocks@)),
{
    let ghost all = seq_view(blocks@);
    let ghost g = |b: SpecBlock| shown_block(b);
    let ghost start = sink@;
    let n = blocks.len();
    let mut i: usize = 0;
    assert(all.take(0) =~= Seq::<SpecBlock>::empty());
    while i < n
        invariant
            n == blocks@.len(),
            all == seq_view(blocks@),
            forall|j: int| 0 <= j < blocks@.len() ==> block_ok(#[trigger] blocks@[j]@),
            g == (|b: SpecBlock| shown_block(b)),
            i <= n,
            sink@ == start + concat_map(all.take(i as int), g),
        decreases n - i,
    {
        assert(block_ok(blocks@[i as int]@));
        show_block(sink, &blocks[i]);
        proof {
            assert(all[i as int] == blocks@[i as int]@);
            assert(all.take(i + 1) =~= all.take(i as int).push(all[i as int]));
            lemma_concat_map_push(all.take(i as int), all[i as int], g);
        }
        i = i + 1;
    }
    assert(all.take(n as int) =~= all);
}

/// Sink the functions `fs`, in order.
fn sink_functions(sink: &mut String, fs: &[&FunctionDefinition])
    requires
        forall|i: int| 0 <= i < fs@.len() ==> prototype_ok(#[trigger] fs@[i]@.prototype),
    ensures
        final(sink)@ == old(sink)@ + functions_text(seq_view(fs@)),
{
    let ghost all = seq_view(fs@);
    let ghost g = |f: SpecFunctionDefinition| function_text(f);
    let ghost start = sink@;
    let n = fs.len();
    let mut i: usize = 0;
    assert(all.take(0) =~= Seq::<SpecFunctionDefinition>::empty());
    while i < n
        invariant
            n == fs@.len(),
            all == seq_view(fs@),
            forall|j: int| 0 <= j < fs@.len() ==> prototype_ok(#[trigger] fs@[j]@.prototype),
            g == (|f: SpecFunctionDefinition| function_text(f)),
            i <= n,
            sink@ == start + concat_map(all.take(i as int), g),
        decreases n - i,
    {
        assert(prototype_ok(fs@[i as int]@.prototype));
        show_function_definition(sink, fs[i]);
        proof {
            assert(all[i as int] == fs@[i as int]@);
            assert(all.take(i + 1) =~= all.take(i as int).push(all[i as int]));
            lemma_concat_map_push(all.take(i as int), all[i as int], g);
        }
        i = i + 1;
    }
    assert(all.take(n as int) =~= all);
}

impl Module {
    /// Whether the module can be folded without fault (`foldable`): what `to_glsl_setup` needs.
    #[verifier::spinoff_prover]
    #[verifier::rlimit(40)]
    pub fn is_foldable(&self) -> (b: bool)
        ensures
            b == foldable(*self),
    {
        let uniforms = self.uniforms();
        let blocks = self.blocks();
        let structs = self.structs();
        let functions = self.functions();
        let ghost fns = module_functions(*self);
        let ghost all = module_structs(*self);
        assert(seq_view(functions@) == fns);
        assert(seq_view(structs@) == all);
        let mut i: usize = 0;
        while i < structs.len()
            invariant
                i <= structs@.len(),
                all == seq_view(structs@),
                all == module_structs(*self),
                forall|j: int| 0 <= j < i ==> (#[trigger] all[j]).fields.len() >= 1 && struct_ok(all[j]),
            decreases structs@.len() - i,
        {
            proof {
                lemma_fields_view(structs@[i as int].fields@);
                assert(all[i as int] == structs@[i as int]@);
            }
            if structs[i].fields.len() == 0 {
                assert(all[i as int].fields.len() == 0);
                assert(!structs_have_fields(all));
                return false;
            }
            if !struct_printable(&structs[i]) {
                assert(!struct_ok(all[i as int]));
                assert(!structs_ok(all));
                return false;
            }
            i = i + 1;
        }
        let mut i: usize = 0;
        while i < uniforms.len()
            invariant
                i <= uniforms@.len(),
                seq_view(uniforms@) == module_uniforms(*self),
                forall|j: int| 0 <= j < i ==> decl_ok(#[trigger] module_uniforms(*self)[j]),
            decreases uniforms@.len() - i,
        {
            assert(module_uniforms(*self)[i as int] == uniforms@[i as int]@);
            if !decl_printable(&uniforms[i]) {
                return false;
            }
            i = i + 1;
        }
        let mut i: usize = 0;
        while i < blocks.len()
            invariant
                i <= blocks@.len(),
                seq_view(blocks@) == module_blocks(*self),
                forall|j: int| 0 <= j < i ==> block_ok(#[trigger] module_blocks(*self)[j]),
            decreases blocks@.len() - i,
        {
            assert(module_blocks(*self)[i as int] == blocks@[i as int]@);
            if !block_printable(&blocks[i]) {
                return false;
            }
            i = i + 1;
        }
        let mut i: usize = 0;
        while i < functions.len()
            invariant
                i <= functions@.len(),
                fns == seq_view(functions@),
                fns == module_functions(*self),
                forall|j: int| 0 <= j < i ==> prototype_ok(#[trigger] fns[j].prototype),
            decreases functions@.len() - i,
        {
            assert(fns[i as int] == functions@[i as int]@);
            if !prototype_printable(&functions[i].prototype) {
                assert(!prototype_ok(fns[i as int].prototype));
                return false;
            }
            i = i + 1;
        }
        proof {
            assert(structs_have_fields(all));
            assert(structs_ok(all));
            reveal_strlit("map_vertex");
            reveal_strlit("concat_map_prim");
            reveal_strlit("map_fragment");
        }

        // the stages that read the stage before them
        let (mv, mf) = match (find_function(functions.as_slice(), "map_vertex"), find_function(functions.as_slice(), "map_fragment")) {
            (Some(mv), Some(mf)) => (mv, mf),
            _ => {
                return true;
            },
        };
        let vertex_outputs = match vertex_shader_outputs(&functions[mv].prototype.ty, structs.as_slice()) {
            Ok(o) => o,
            Err(_) => {
                return true;
            },
        };
        let vertex_ret_ty = match get_fn_ret_ty(&functions[mv], structs.as_slice()) {
            Ok(r) => r,
            Err(_) => {
                return true;
            },
        };
        proof {
            let t = functions@[mv as int]@.prototype.ty.ty;
            lemma_struct_named_ok(all, t.ty->TypeName_0);
            lemma_fields_view(vertex_ret_ty.fields@);
        }
        let vertex_ret_ty_fixed = drop_first_field(&vertex_ret_ty);
        let ghost vr = vertex_ret_ty@;
        let ghost vo = seq_view(vertex_outputs@);
        assert(spec_vs(functions@[mv as int]@, all) == Ok::<(SpecStructSpecifier, Seq<SpecSingleDeclaration>), SpecConversionError>((vr, vo)));
        let prev_outputs_len = match find_function(functions.as_slice(), "concat_map_prim") {
            Some(c) => match check_geometry_shader(&functions[c], structs.as_slice(), &vertex_ret_ty_fixed) {
                Ok((ret_ty, outputs)) => {
                    if vertex_outputs.len() == 0 {
                        proof {
                            assert(vo.len() == 0);
                            assert(function_named(fns, "map_vertex"@) == Some(functions@[mv as int]@));
                            assert(function_named(fns, "map_fragment"@) == Some(functions@[mf as int]@));
                            assert(function_named(fns, "concat_map_prim"@) == Some(functions@[c as int]@));
                            assert(vertex_ret_ty_fixed@ == without_first_field(vr));
                            assert(spec_gs(functions@[c as int]@, all, without_first_field(vr)) is Ok);
                            assert(!stages_have_inputs(*self));
                        }
                        return false;
                    }
                    match check_fragment_shader(&functions[mf], structs.as_slice(), &ret_ty) {
                        Ok(_) => outputs.len(),
                        Err(_) => {
                            return true;
                        },
                    }
                },
                Err(_) => {
                    return true;
                },
            },
            None => match check_fragment_shader(&functions[mf], structs.as_slice(), &vertex_ret_ty_fixed) {
                Ok(_) => vertex_outputs.len(),
                Err(_) => {
                    return true;
                },
            },
        };
        prev_outputs_len >= 1
    }

    /// Fold a pipeline module into its GLSL setup: the text of the vertex shader and of the
    /// fragment shader, each made of what the stages share and of the stage's own code.
    #[verifier::spinoff_prover]
    #[verifier::rlimit(60)]
    pub fn to_glsl_setup(&self) -> (res: Result<ModuleFold, GLSLConversionError>)
        requires
            foldable(*self),
        ensures
            match res {
                Ok(fold) => spec_fold(*self) == Ok::<(Seq<char>, Option<Seq<char>>, Seq<char>), SpecConversionError>(
                    (fold.vs@, crate::syntax::opt_string_view(fold.gs), fold.fs@),
                ),
                Err(e) => spec_fold(*self) == Err::<(Seq<char>, Option<Seq<char>>, Seq<char>), SpecConversionError>(e@),
            },
    {
        let uniforms = self.uniforms();
        let blocks = self.blocks();
        let structs = self.structs();
        let functions = self.functions();
        let ghost fns = module_functions(*self);
        let ghost all = module_structs(*self);
        proof {
            assert(seq_view(functions@) == fns);
            assert(seq_view(structs@) == all);
            assert forall|i: int| 0 <= i < uniforms@.len() implies decl_ok(#[trigger] uniforms@[i]@) by {
                assert(seq_view(uniforms@)[i] == uniforms@[i]@);
                assert(decl_ok(module_uniforms(*self)[i]));
            }
            assert forall|i: int| 0 <= i < blocks@.len() implies block_ok(#[trigger] blocks@[i]@) by {
                assert(seq_view(blocks@)[i] == blocks@[i]@);
                assert(block_ok(module_blocks(*self)[i]));
            }
        }
        let mut common = String::new();
        let mut vs = String::new();
        let mut gs = String::new();
        let mut fs = String::new();
        let mut structs_str = String::new();

        // sink uniforms, blocks and functions as a common framework
        sink_single_as_ext_decls(&mut common, uniforms.as_slice());
        sink_blocks(&mut common, blocks.as_slice());
        let ordinary = filter_out_special_functions(functions.as_slice());
        proof {
            lemma_ordinary_functions(fns);
            assert forall|i: int| 0 <= i < ordinary@.len() implies prototype_ok(#[trigger] ordinary@[i]@.prototype) by {
                assert(seq_view(ordinary@)[i] == ordinary@[i]@);
                let f = ordinary_functions(fns)[i];
                assert(fns.contains(f));
                let j = choose|j: int| 0 <= j < fns.len() && fns[j] == f;
                assert(prototype_ok(fns[j].prototype));
            }
        }
        sink_functions(&mut common, ordinary.as_slice());

        // get the special functions
        proof {
            reveal_strlit("map_vertex");
            reveal_strlit("concat_map_prim");
            reveal_strlit("map_fragment");
        }
        let mv = match find_function(functions.as_slice(), "map_vertex") {
            Some(i) => i,
            None => {
                return Err(GLSLConversionError::NoVertexShader);
            },
        };
        let cp = find_function(functions.as_slice(), "concat_map_prim");
        let mf = match find_function(functions.as_slice(), "map_fragment") {
            Some(i) => i,
            None => {
                return Err(GLSLConversionError::NoFragmentShader);
            },
        };
        proof {
            lemma_function_named_in(fns, "map_vertex"@);
            lemma_function_named_in(fns, "map_fragment"@);
            lemma_function_named_in(fns, "concat_map_prim"@);
            let fv = functions@[mv as int]@;
            let j = choose|j: int| 0 <= j < fns.len() && fns[j] == fv;
            assert(prototype_ok(fns[j].prototype));
            let ff = functions@[mf as int]@;
            let k = choose|k: int| 0 <= k < fns.len() && fns[k] == ff;
            assert(prototype_ok(fns[k].prototype));
        }

        // sink the vertex shader
        let (vertex_ret_ty, vertex_outputs) = match sink_vertex_shader(&mut vs, &functions[mv], structs.as_slice()) {
            Ok(r) => r,
            Err(e) => {
                return Err(e);
            },
        };
        let ghost vr = vertex_ret_ty@;
        let ghost vo = seq_view(vertex_outputs@);
        proof {
            let t = functions@[mv as int]@.prototype.ty.ty;
            lemma_struct_named_ok(all, t.ty->TypeName_0);
            lemma_fields_view(vertex_ret_ty.fields@);
            lemma_fields_ok(vr.fields);
            lemma_fields_ok(vr.fields.drop_first());
            assert forall|i: int| 0 <= i < vr.fields.drop_first().len() implies field_ok(#[trigger] vr.fields.drop_first()[i]) by {
                assert(vr.fields.drop_first()[i] == vr.fields[i + 1]);
            }
            lemma_fields_decls_ok(vr.fields.drop_first(), "spsl_v_"@);
        }
        // since this type has its first field reserved, we must drop it for next stage
        let vertex_ret_ty_fixed = drop_first_field(&vertex_ret_ty);
        let mut hidden: Vec<Option<String>> = Vec::new();
        hidden.push(duplicate_opt_string(&vertex_ret_ty_fixed.name));
        proof {
            assert(struct_ok(vertex_ret_ty_fixed@));
            assert forall|i: int| 0 <= i < vo.len() implies decl_ok(#[trigger] vo[i]) && vo[i].name is Some by {}
            assert(stages_have_inputs(*self));
        }

        // if there's any, sink the geometry shader and get its return type; otherwise, pass the
        // vertex type on to the fragment shader
        let (prev_ret_ty, prev_outputs) = match cp {
            Some(c) => {
                proof {
                    let fc = functions@[c as int]@;
                    let k = choose|k: int| 0 <= k < fns.len() && fns[k] == fc;
                    assert(prototype_ok(fns[k].prototype));
                }
                let r = sink_geometry_shader(&mut gs, &functions[c], structs.as_slice(), &vertex_ret_ty_fixed, vertex_outputs.as_slice());
                match r {
                    Ok((ret_ty, outputs)) => {
                        proof {
                            lemma_stage_ok(functions@[c as int]@, all, "spsl_g_"@, ret_ty@, seq_view(outputs@));
                        }
                        hidden.push(duplicate_opt_string(&ret_ty.name));
                        (ret_ty, outputs)
                    },
                    Err(e) => {
                        return Err(e);
                    },
                }
            },
            None => (vertex_ret_ty_fixed, vertex_outputs),
        };
        proof {
            assert(prev_stage(*self, vr, vo) == Ok::<(SpecStructSpecifier, Seq<SpecSingleDeclaration>), SpecConversionError>((prev_ret_ty@, seq_view(prev_outputs@))));
            assert forall|i: int| 0 <= i < prev_outputs@.len() implies decl_ok(#[trigger] prev_outputs@[i]@) && prev_outputs@[i]@.name is Some by {
                assert(seq_view(prev_outputs@)[i] == prev_outputs@[i]@);
            }
        }

        // sink the fragment shader
        let (fragment_ret_ty, _) = match sink_fragment_shader(&mut fs, &functions[mf], structs.as_slice(), &prev_ret_ty, prev_outputs.as_slice()) {
            Ok(r) => r,
            Err(e) => {
                return Err(e);
            },
        };
        hidden.push(duplicate_opt_string(&fragment_ret_ty.name));

        // filter out structs that might only exist in specific stages
        sink_structs_except(&mut structs_str, structs.as_slice(), hidden.as_slice());
        structs_str.append(common.as_str());
        let common = structs_str;

        let mut vs_all = String::new();
        vs_all.append(common.as_str());
        vs_all.append(vs.as_str());
        let mut fs_all = String::new();
        fs_all.append(common.as_str());
        fs_all.append(fs.as_str());
        proof {
            reveal_strlit("}\n\n");
            if cp is Some {
                assert(gs@.len() > 0);
            } else {
                assert(gs@.len() == 0);
            }
        }
        let gs_out = if gs.as_str().unicode_len() == 0 { None } else { Some(gs) };
        proof {
            let hv = hidden@.map_values(|h: Option<String>| crate::syntax::opt_string_view(h));
            let want = if cp is Some {
                seq![without_first_field(vr).name, prev_ret_ty@.name, fragment_ret_ty@.name]
            } else {
                seq![without_first_field(vr).name, fragment_ret_ty@.name]
            };
            assert(hv =~= want);
            assert(common@ =~= common_text(*self, want));
        }
        Ok(ModuleFold { vs: vs_all, gs: gs_out, fs: fs_all })
    }
}

} // verus!

use spectra::fold::{drop_first_field, remove_unused_args_fn, sink_fragment_shader, sink_geometry_shader, sink_vertex_shader};
use spectra::module::Module;
use spectra::pipeline::{
    fields_to_single_decls, get_fn1_input_ty_name, get_fn_ret_ty, inputs_from_outputs, vertex_shader_outputs,
};
use spectra::syntax::{
    ArraySpecifier, BuiltinType, Declaration, Expr, ExternalDeclaration, FullySpecifiedType,
    FunctionDefinition, FunctionParameterDeclaration, FunctionParameterDeclarator, FunctionPrototype,
    GLSLConversionError, InitDeclaratorList, LayoutQualifier, LayoutQualifierSpec, SingleDeclaration,
    StorageQualifier, StructFieldSpecifier, StructSpecifier, TypeQualifier, TypeQualifierSpec,
    TypeSpecifier, TypeSpecifierNonArray,
};

fn builtin(b: BuiltinType) -> TypeSpecifier {
    TypeSpecifier { ty: TypeSpecifierNonArray::Builtin(b), array_specifier: None }
}

fn named_type(n: &str) -> TypeSpecifier {
    TypeSpecifier { ty: TypeSpecifierNonArray::TypeName(n.to_owned()), array_specifier: None }
}

fn fst(t: TypeSpecifier) -> FullySpecifiedType {
    FullySpecifiedType { qualifier: None, ty: t }
}

fn field(t: TypeSpecifier, names: &[&str]) -> StructFieldSpecifier {
    StructFieldSpecifier { qualifier: None, ty: t, identifiers: names.iter().map(|n| (n.to_string(), None)).collect() }
}

fn strukt(name: &str, fields: Vec<StructFieldSpecifier>) -> StructSpecifier {
    StructSpecifier { name: Some(name.to_owned()), fields }
}

fn named(name: &str, t: TypeSpecifier) -> FunctionParameterDeclaration {
    FunctionParameterDeclaration::Named(None, FunctionParameterDeclarator { ty: t, name: name.to_owned(), array_spec: None })
}

fn function(ret: TypeSpecifier, name: &str, params: Vec<FunctionParameterDeclaration>, body: &str) -> FunctionDefinition {
    FunctionDefinition {
        prototype: FunctionPrototype { ty: fst(ret), name: name.to_owned(), parameters: params },
        statement: body.to_owned(),
    }
}

fn vertex() -> StructSpecifier {
    strukt("Vertex", vec![field(builtin(BuiltinType::Vec4), &["spsl_Position"]), field(builtin(BuiltinType::Vec4), &["color"])])
}

fn frag() -> StructSpecifier {
    strukt("Frag", vec![field(builtin(BuiltinType::Vec4), &["frag"])])
}

fn light() -> StructSpecifier {
    strukt("Light", vec![field(builtin(BuiltinType::Vec3), &["dir"])])
}

fn map_vertex() -> FunctionDefinition {
    function(
        named_type("Vertex"),
        "map_vertex",
        vec![named("position", builtin(BuiltinType::Vec3)), named("color", builtin(BuiltinType::Vec4))],
        "  return Vertex(vec4(position, 1.), color);\n",
    )
}

fn map_fragment() -> FunctionDefinition {
    function(named_type("Frag"), "map_fragment", vec![named("v", named_type("Vertex"))], "  return Frag(v.color);\n")
}

fn struct_decl(s: StructSpecifier) -> ExternalDeclaration {
    ExternalDeclaration::Declaration(Declaration::InitDeclaratorList(InitDeclaratorList {
        head: SingleDeclaration {
            ty: fst(TypeSpecifier { ty: TypeSpecifierNonArray::Struct(s), array_specifier: None }),
            name: None,
            array_specifier: None,
            initializer: None,
        },
        tail: vec![],
    }))
}

fn uniform_t() -> ExternalDeclaration {
    ExternalDeclaration::Declaration(Declaration::InitDeclaratorList(InitDeclaratorList {
        head: SingleDeclaration {
            ty: FullySpecifiedType {
                qualifier: Some(TypeQualifier { qualifiers: vec![TypeQualifierSpec::Storage(StorageQualifier::Uniform)] }),
                ty: builtin(BuiltinType::Float),
            },
            name: Some("t".to_owned()),
            array_specifier: None,
            initializer: None,
        },
        tail: vec![],
    }))
}

fn pipeline(functions: Vec<FunctionDefinition>) -> Module {
    let mut glsl = vec![struct_decl(light()), struct_decl(vertex()), struct_decl(frag()), uniform_t()];
    glsl.push(ExternalDeclaration::FunctionDefinition(function(builtin(BuiltinType::Float), "helper", vec![], "  return t;\n")));
    for f in functions {
        glsl.push(ExternalDeclaration::FunctionDefinition(f));
    }
    Module { imports: vec![], glsl }
}

const COMMON: &str = "struct Light {\nvec3 dir;\n};\nuniform float t;\nfloat helper() {\n  return t;\n}\n";

const VS: &str = "layout (location = 0) in vec3 position;\nlayout (location = 1) in vec4 color;\nout vec4 spsl_v_color;\nstruct Vertex {\nvec4 spsl_Position;\nvec4 color;\n};\nVertex map_vertex(vec3 position, vec4 color) {\n  return Vertex(vec4(position, 1.), color);\n}\nvoid main() {\n  Vertex v = map_vertex(position, color);\n  gl_Position = v.spsl_Position;\n  spsl_v_color = v.color;\n}\n\n";

const FS: &str = "in vec4 spsl_v_color;\nout vec4 spsl_f_frag;\nstruct Vertex {\nvec4 color;\n};\nstruct Frag {\nvec4 frag;\n};\nFrag map_fragment(Vertex v) {\n  return Frag(v.color);\n}\nvoid main() {\n  Vertex i = Vertex(spsl_v_color);\n  Frag o = map_fragment(i);\n  spsl_f_frag = o.frag;\n}\n\n";

#[test]
fn a_pipeline_folds_into_its_vertex_and_fragment_shaders() {
    let fold = pipeline(vec![map_vertex(), map_fragment()]).to_glsl_setup().unwrap();
    assert_eq!(fold.vs, format!("{}{}", COMMON, VS));
    assert_eq!(fold.fs, format!("{}{}", COMMON, FS));
    assert_eq!(fold.gs, None);
}

#[test]
fn a_pipeline_without_map_vertex_has_no_vertex_shader() {
    assert!(matches!(pipeline(vec![map_fragment()]).to_glsl_setup(), Err(GLSLConversionError::NoVertexShader)));
    assert!(matches!(pipeline(vec![]).to_glsl_setup(), Err(GLSLConversionError::NoVertexShader)));
}

#[test]
fn a_pipeline_without_map_fragment_has_no_fragment_shader() {
    assert!(matches!(pipeline(vec![map_vertex()]).to_glsl_setup(), Err(GLSLConversionError::NoFragmentShader)));
}

#[test]
fn a_fragment_function_that_reads_another_type_is_refused() {
    let wrong = function(named_type("Frag"), "map_fragment", vec![named("v", named_type("Light"))], "");
    match pipeline(vec![map_vertex(), wrong]).to_glsl_setup() {
        Err(GLSLConversionError::UnknownInputType(n)) => assert_eq!(n, "Light"),
        _ => panic!("expected an unknown input type"),
    }
}

#[test]
fn the_vertex_shader_text_is_exact() {
    let mut sink = String::from(">");
    let (ret, outputs) = sink_vertex_shader(&mut sink, &map_vertex(), &[light(), vertex(), frag()]).unwrap();
    assert_eq!(sink, format!(">{}", VS));
    assert_eq!(ret, vertex());
    assert_eq!(outputs.len(), 1);
    assert_eq!(outputs[0].name.as_deref(), Some("spsl_v_color"));
}

#[test]
fn the_fragment_shader_writes_nothing_on_an_unknown_input() {
    let mut sink = String::from("kept");
    let prev = drop_first_field(&vertex());
    let outputs = vertex_shader_outputs(&fst(named_type("Vertex")), &[vertex()]).unwrap();
    let wrong = function(named_type("Frag"), "map_fragment", vec![named("v", named_type("Other"))], "");
    match sink_fragment_shader(&mut sink, &wrong, &[frag()], &prev, &outputs) {
        Err(GLSLConversionError::UnknownInputType(n)) => assert_eq!(n, "Other"),
        _ => panic!("expected an unknown input type"),
    }
    assert_eq!(sink, "kept");
    let mut sink = String::new();
    let (ret, fo) = sink_fragment_shader(&mut sink, &map_fragment(), &[frag()], &prev, &outputs).unwrap();
    assert_eq!(sink, FS);
    assert_eq!(ret, frag());
    assert_eq!(fo[0].name.as_deref(), Some("spsl_f_frag"));
}

#[test]
fn vertex_outputs_follow_the_position_rule() {
    let structs = [vertex(), strukt("Bad", vec![field(builtin(BuiltinType::Vec3), &["spsl_Position"])])];
    let qualified = FullySpecifiedType {
        qualifier: Some(TypeQualifier { qualifiers: vec![TypeQualifierSpec::Storage(StorageQualifier::Out)] }),
        ty: named_type("Vertex"),
    };
    assert!(matches!(vertex_shader_outputs(&qualified, &structs), Err(GLSLConversionError::OutputHasMainQualifier)));
    assert!(matches!(vertex_shader_outputs(&fst(named_type("None")), &structs), Err(GLSLConversionError::ReturnTypeMustBeAStruct(_))));
    assert!(matches!(vertex_shader_outputs(&fst(builtin(BuiltinType::Vec4)), &structs), Err(GLSLConversionError::ReturnTypeMustBeAStruct(_))));
    match vertex_shader_outputs(&fst(named_type("Bad")), &structs) {
        Err(GLSLConversionError::WrongOutputFirstField(f)) => assert_eq!(f, structs[1].fields[0]),
        _ => panic!("expected a wrong first field"),
    }
    let outputs = vertex_shader_outputs(&fst(named_type("Vertex")), &structs).unwrap();
    assert_eq!(outputs.len(), 1);
    assert_eq!(
        outputs[0].ty.qualifier,
        Some(TypeQualifier { qualifiers: vec![TypeQualifierSpec::Storage(StorageQualifier::Out)] })
    );
}

#[test]
fn output_fields_become_prefixed_outputs_and_structs_are_refused() {
    let flat = StructFieldSpecifier {
        qualifier: Some(TypeQualifier { qualifiers: vec![TypeQualifierSpec::Interpolation(spectra::syntax::InterpolationQualifier::Flat)] }),
        ty: builtin(BuiltinType::Int),
        identifiers: vec![("id".to_owned(), None), ("ids".to_owned(), Some(ArraySpecifier::ExplicitlySized(Expr::IntConst(2))))],
    };
    let decls = fields_to_single_decls(&[field(builtin(BuiltinType::Vec3), &["n"]), flat], "spsl_g_").unwrap();
    let names: Vec<&str> = decls.iter().map(|d| d.name.as_deref().unwrap()).collect();
    assert_eq!(names, vec!["spsl_g_n", "spsl_g_id", "spsl_g_ids"]);
    assert_eq!(decls[2].array_specifier, Some(ArraySpecifier::ExplicitlySized(Expr::IntConst(2))));
    assert_eq!(decls[1].ty.qualifier.as_ref().unwrap().qualifiers.len(), 2);
    let composite = || field(named_type("Light"), &["l"]);
    match fields_to_single_decls(&[field(builtin(BuiltinType::Vec3), &["n"]), composite(), field(named_type("X"), &["x"])], "p") {
        Err(GLSLConversionError::CompositeOutputField(f)) => assert_eq!(f, composite()),
        _ => panic!("expected a composite field"),
    }
}

#[test]
fn inputs_read_the_outputs_of_the_previous_stage() {
    let outputs = fields_to_single_decls(&[field(builtin(BuiltinType::Vec3), &["n"])], "spsl_v_").unwrap();
    let inputs = inputs_from_outputs(&outputs);
    assert_eq!(inputs[0].name, outputs[0].name);
    assert_eq!(
        inputs[0].ty.qualifier,
        Some(TypeQualifier { qualifiers: vec![TypeQualifierSpec::Storage(StorageQualifier::In)] })
    );
}

#[test]
fn return_types_and_single_inputs_are_resolved() {
    assert_eq!(get_fn_ret_ty(&map_fragment(), &[vertex(), frag()]).unwrap(), frag());
    assert!(matches!(get_fn_ret_ty(&map_fragment(), &[vertex()]), Err(GLSLConversionError::ReturnTypeMustBeAStruct(_))));
    assert_eq!(get_fn1_input_ty_name(&map_fragment()).unwrap(), "Vertex");
    assert!(matches!(get_fn1_input_ty_name(&map_vertex()), Err(GLSLConversionError::WrongNumberOfArgs(1, 2))));
    let builtin_input = function(named_type("Frag"), "f", vec![named("v", builtin(BuiltinType::Vec4))], "");
    assert!(matches!(get_fn1_input_ty_name(&builtin_input), Err(GLSLConversionError::InputTypeMustBeAStruct(_))));
}

#[test]
fn dropping_the_first_field_and_unused_arguments() {
    let fixed = drop_first_field(&vertex());
    assert_eq!(fixed.name.as_deref(), Some("Vertex"));
    assert_eq!(fixed.fields, vec![field(builtin(BuiltinType::Vec4), &["color"])]);
    let f = function(
        builtin(BuiltinType::Void),
        "f",
        vec![FunctionParameterDeclaration::Unnamed(None, builtin(BuiltinType::Int)), named("x", builtin(BuiltinType::Int))],
        "",
    );
    let reduced = remove_unused_args_fn(&f);
    assert_eq!(reduced.prototype.parameters, vec![named("x", builtin(BuiltinType::Int))]);
}

fn gs_input(size: i32, layout: Vec<LayoutQualifierSpec>) -> FunctionParameterDeclaration {
    let qualifier = TypeQualifier {
        qualifiers: vec![
            TypeQualifierSpec::Layout(LayoutQualifier { ids: layout }),
            TypeQualifierSpec::Storage(StorageQualifier::Out),
        ],
    };
    FunctionParameterDeclaration::Named(
        Some(qualifier),
        FunctionParameterDeclarator {
            ty: TypeSpecifier {
                ty: TypeSpecifierNonArray::TypeName("Vertex".to_owned()),
                array_specifier: Some(ArraySpecifier::ExplicitlySized(Expr::IntConst(size))),
            },
            name: "vertices".to_owned(),
            array_spec: None,
        },
    )
}

fn strip_layout() -> Vec<LayoutQualifierSpec> {
    vec![
        LayoutQualifierSpec::Identifier("triangle_strip".to_owned(), None),
        LayoutQualifierSpec::Identifier("max_vertices".to_owned(), Some(Expr::IntConst(3))),
    ]
}

const GS: &str = "in vec4 spsl_v_color;\nout vec4 spsl_g_c;\nstruct Vertex {\nvec4 color;\n};\nstruct Prim {\nvec4 c;\n};\nPrim concat_map_prim(layout (triangle_strip, max_vertices = 3) out Vertex[3] vertices) {\n  return Prim(vertices[0].color);\n}\nvoid main() {\n  Vertex i = Vertex(spsl_v_color);\n  Prim o = concat_map_prim(i);\n  spsl_g_c = o.c;\n}\n\n";

#[test]
fn the_geometry_stage_checks_its_function_and_writes_its_shader() {
    let prev = drop_first_field(&vertex());
    let outputs = vertex_shader_outputs(&fst(named_type("Vertex")), &[vertex()]).unwrap();
    let prim = || strukt("Prim", vec![field(builtin(BuiltinType::Vec4), &["c"])]);
    let ok = function(named_type("Prim"), "concat_map_prim", vec![gs_input(3, strip_layout())], "  return Prim(vertices[0].color);\n");
    let mut sink = String::from("s");
    let (ret, go) = sink_geometry_shader(&mut sink, &ok, &[prim()], &prev, &outputs).unwrap();
    assert_eq!(sink, format!("s{}", GS));
    assert_eq!(ret, prim());
    assert_eq!(go[0].name.as_deref(), Some("spsl_g_c"));

    let two_args = function(named_type("Prim"), "concat_map_prim", vec![gs_input(3, strip_layout()), named("o", named_type("Prim"))], "");
    assert!(sink_geometry_shader(&mut String::new(), &two_args, &[prim()], &prev, &outputs).is_ok());

    let mut sink = String::from("s");
    let none = function(named_type("Prim"), "concat_map_prim", vec![], "");
    assert!(matches!(sink_geometry_shader(&mut sink, &none, &[prim()], &prev, &outputs), Err(GLSLConversionError::WrongNumberOfArgs(1, 0))));
    let three = function(named_type("Prim"), "concat_map_prim", vec![gs_input(3, strip_layout()), named("o", named_type("Prim")), named("p", named_type("Prim"))], "");
    assert!(matches!(sink_geometry_shader(&mut sink, &three, &[prim()], &prev, &outputs), Err(GLSLConversionError::WrongNumberOfArgs(1, 3))));
    let dim = function(named_type("Prim"), "concat_map_prim", vec![gs_input(5, strip_layout())], "");
    assert!(matches!(sink_geometry_shader(&mut sink, &dim, &[prim()], &prev, &outputs), Err(GLSLConversionError::WrongGeometryInputDim(5))));
    let layout = function(named_type("Prim"), "concat_map_prim", vec![gs_input(3, vec![])], "");
    assert!(matches!(sink_geometry_shader(&mut sink, &layout, &[prim()], &prev, &outputs), Err(GLSLConversionError::WrongGeometryOutputLayout)));
    let other = strukt("Other", vec![]);
    match sink_geometry_shader(&mut sink, &ok, &[prim()], &other, &outputs) {
        Err(GLSLConversionError::UnknownInputType(n)) => assert_eq!(n, "Vertex"),
        _ => panic!("expected an unknown input type"),
    }
    assert_eq!(sink, "s");
}

#[test]
fn a_pipeline_with_a_geometry_stage_gets_a_geometry_shader() {
    let prim = strukt("Prim", vec![field(builtin(BuiltinType::Vec4), &["color"])]);
    let gs = function(named_type("Prim"), "concat_map_prim", vec![gs_input(3, strip_layout())], "");
    let fragment = function(named_type("Frag"), "map_fragment", vec![named("p", named_type("Prim"))], "  return Frag(p.color);\n");
    let mut m = pipeline(vec![map_vertex(), gs, fragment]);
    m.glsl.insert(0, struct_decl(prim));
    assert!(m.is_foldable());
    let fold = m.to_glsl_setup().unwrap();
    let expected_gs = "in vec4 spsl_v_color;\nout vec4 spsl_g_color;\nstruct Vertex {\nvec4 color;\n};\nstruct Prim {\nvec4 color;\n};\nPrim concat_map_prim(layout (triangle_strip, max_vertices = 3) out Vertex[3] vertices) {\n}\nvoid main() {\n  Vertex i = Vertex(spsl_v_color);\n  Prim o = concat_map_prim(i);\n  spsl_g_color = o.color;\n}\n\n";
    assert_eq!(fold.gs.as_deref(), Some(expected_gs));
    assert!(fold.vs.starts_with(COMMON));
    assert!(fold.fs.starts_with(COMMON));
    assert!(fold.fs.contains("  Prim i = Prim(spsl_g_color);\n"));
}

#[test]
fn foldability_is_tested_before_folding() {
    assert!(pipeline(vec![map_vertex(), map_fragment()]).is_foldable());
    // a vertex with only its position leaves nothing for the fragment stage to read
    let bare = strukt("Bare", vec![field(builtin(BuiltinType::Vec4), &["spsl_Position"])]);
    let map_bare = function(named_type("Bare"), "map_vertex", vec![], "");
    let frag_bare = function(named_type("Frag"), "map_fragment", vec![named("v", named_type("Bare"))], "");
    let mut m = pipeline(vec![map_bare, frag_bare]);
    m.glsl.insert(0, struct_decl(bare));
    assert!(!m.is_foldable());
    // without the fragment function, the module folds to its error
    let bare2 = strukt("Bare", vec![field(builtin(BuiltinType::Vec4), &["spsl_Position"])]);
    let mut m = pipeline(vec![function(named_type("Bare"), "map_vertex", vec![], "")]);
    m.glsl.insert(0, struct_decl(bare2));
    assert!(m.is_foldable());
    assert!(matches!(m.to_glsl_setup(), Err(GLSLConversionError::NoFragmentShader)));
    // an empty struct cannot be printed
    let mut m = pipeline(vec![map_vertex(), map_fragment()]);
    m.glsl.insert(0, struct_decl(strukt("Empty", vec![])));
    assert!(!m.is_foldable());
}

#[test]
fn an_unknown_fragment_input_is_reported_without_previous_outputs() {
    let mut sink = String::from("kept");
    let wrong = function(named_type("Frag"), "map_fragment", vec![named("v", named_type("Other"))], "");
    match sink_fragment_shader(&mut sink, &wrong, &[frag()], &drop_first_field(&vertex()), &[]) {
        Err(GLSLConversionError::UnknownInputType(n)) => assert_eq!(n, "Other"),
        _ => panic!("expected an unknown input type"),
    }
    assert_eq!(sink, "kept");
}

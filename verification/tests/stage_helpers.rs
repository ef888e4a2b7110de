use spectra::module::Module;
use spectra::stage::{
    check_gs_output_prim, filter_out_special_functions, get_gs_output_layout_metadata,
    guess_gs_input_prim, is_fn_arg_named, sink_vertex_shader_input_arg,
    sink_vertex_shader_input_args, sink_vertex_shader_output, vertex_shader_input_qualifier,
    vertex_shader_inputs,
};
use spectra::text::{str_eq, write_decimal};
use spectra::syntax::{
    ArraySpecifier, Block, BuiltinType, Declaration, Expr, ExternalDeclaration,
    FullySpecifiedType, FunctionDefinition, FunctionParameterDeclaration,
    FunctionParameterDeclarator, FunctionPrototype, GLSLConversionError, InitDeclaratorList,
    LayoutQualifier, LayoutQualifierSpec, SingleDeclaration, SingleDeclarationNoType,
    StorageQualifier, StructFieldSpecifier, StructSpecifier, TypeQualifier, TypeQualifierSpec,
    TypeSpecifier, TypeSpecifierNonArray,
};

fn builtin(b: BuiltinType) -> TypeSpecifier {
    TypeSpecifier { ty: TypeSpecifierNonArray::Builtin(b), array_specifier: None }
}

fn fst(q: Option<TypeQualifier>, t: TypeSpecifier) -> FullySpecifiedType {
    FullySpecifiedType { qualifier: q, ty: t }
}

fn storage(s: StorageQualifier) -> TypeQualifier {
    TypeQualifier { qualifiers: vec![TypeQualifierSpec::Storage(s)] }
}

fn field(t: TypeSpecifier, names: &[&str]) -> StructFieldSpecifier {
    StructFieldSpecifier {
        qualifier: None,
        ty: t,
        identifiers: names.iter().map(|n| (n.to_string(), None)).collect(),
    }
}

fn function(name: &str, params: Vec<FunctionParameterDeclaration>) -> FunctionDefinition {
    FunctionDefinition {
        prototype: FunctionPrototype {
            ty: fst(None, builtin(BuiltinType::Void)),
            name: name.to_owned(),
            parameters: params,
        },
        statement: "{}".to_owned(),
    }
}

fn named(name: &str, t: BuiltinType) -> FunctionParameterDeclaration {
    FunctionParameterDeclaration::Named(
        None,
        FunctionParameterDeclarator { ty: builtin(t), name: name.to_owned(), array_spec: None },
    )
}

fn unnamed(t: BuiltinType) -> FunctionParameterDeclaration {
    FunctionParameterDeclaration::Unnamed(None, builtin(t))
}

fn vertex_struct() -> StructSpecifier {
    StructSpecifier {
        name: Some("Vertex".to_owned()),
        fields: vec![
            field(builtin(BuiltinType::Vec4), &["spsl_Position"]),
            field(builtin(BuiltinType::Vec3), &["position", "normal"]),
            field(builtin(BuiltinType::Vec4), &["color"]),
        ],
    }
}

fn sample_module() -> Module {
    let uniform_list = InitDeclaratorList {
        head: SingleDeclaration {
            ty: fst(Some(storage(StorageQualifier::Uniform)), builtin(BuiltinType::Mat4)),
            name: Some("proj".to_owned()),
            array_specifier: None,
            initializer: None,
        },
        tail: vec![SingleDeclarationNoType {
            name: "view".to_owned(),
            array_specifier: Some(ArraySpecifier::ExplicitlySized(Expr::IntConst(2))),
            initializer: Some(Expr::Other("x".to_owned())),
        }],
    };
    let const_list = InitDeclaratorList {
        head: SingleDeclaration {
            ty: fst(Some(storage(StorageQualifier::Const)), builtin(BuiltinType::Float)),
            name: Some("pi".to_owned()),
            array_specifier: None,
            initializer: Some(Expr::Other("3.14".to_owned())),
        },
        tail: vec![],
    };
    let struct_list = InitDeclaratorList {
        head: SingleDeclaration {
            ty: fst(None, TypeSpecifier { ty: TypeSpecifierNonArray::Struct(vertex_struct()), array_specifier: None }),
            name: None,
            array_specifier: None,
            initializer: None,
        },
        tail: vec![],
    };
    let block = Block {
        qualifier: storage(StorageQualifier::Uniform),
        name: "Lights".to_owned(),
        fields: vec![field(builtin(BuiltinType::Vec3), &["dir"])],
        identifier: None,
    };
    Module {
        imports: vec![],
        glsl: vec![
            ExternalDeclaration::Preprocessor("#version 330".to_owned()),
            ExternalDeclaration::Declaration(Declaration::InitDeclaratorList(uniform_list)),
            ExternalDeclaration::Declaration(Declaration::InitDeclaratorList(const_list)),
            ExternalDeclaration::Declaration(Declaration::InitDeclaratorList(struct_list)),
            ExternalDeclaration::Declaration(Declaration::Block(block)),
            ExternalDeclaration::FunctionDefinition(function("helper", vec![])),
            ExternalDeclaration::FunctionDefinition(function("map_vertex", vec![named("p", BuiltinType::Vec3)])),
        ],
    }
}

#[test]
fn uniforms_expand_every_name_of_a_uniform_list() {
    let u = sample_module().uniforms();
    assert_eq!(u.len(), 2);
    assert_eq!(u[0].name.as_deref(), Some("proj"));
    assert_eq!(u[1].name.as_deref(), Some("view"));
    assert_eq!(u[1].ty, u[0].ty);
    assert_eq!(u[1].array_specifier, Some(ArraySpecifier::ExplicitlySized(Expr::IntConst(2))));
    assert_eq!(u[1].initializer, None);
}

#[test]
fn blocks_functions_and_structs_are_collected_in_order() {
    let m = sample_module();
    let blocks = m.blocks();
    assert_eq!(blocks.len(), 1);
    assert_eq!(blocks[0].name, "Lights");
    let functions = m.functions();
    let names: Vec<&str> = functions.iter().map(|f| f.prototype.name.as_str()).collect();
    assert_eq!(names, vec!["helper", "map_vertex"]);
    let structs = m.structs();
    assert_eq!(structs.len(), 1);
    assert_eq!(structs[0].name.as_deref(), Some("Vertex"));
    assert_eq!(structs[0].fields.len(), 3);
}

#[test]
fn empty_module_has_nothing_to_collect() {
    let m = Module { imports: vec![], glsl: vec![] };
    assert!(m.uniforms().is_empty());
    assert!(m.blocks().is_empty());
    assert!(m.functions().is_empty());
    assert!(m.structs().is_empty());
}

fn location_of(q: &TypeQualifier) -> Option<i32> {
    match &q.qualifiers[0] {
        TypeQualifierSpec::Layout(l) => match &l.ids[0] {
            LayoutQualifierSpec::Identifier(n, Some(Expr::IntConst(i))) if n == "location" => Some(*i),
            _ => None,
        },
        _ => None,
    }
}

#[test]
fn input_qualifier_prepends_location_and_in() {
    let q = vertex_shader_input_qualifier(3, &None);
    assert_eq!(q.qualifiers.len(), 2);
    assert_eq!(location_of(&q), Some(3));
    assert_eq!(q.qualifiers[1], TypeQualifierSpec::Storage(StorageQualifier::In));

    let flat = TypeQualifier { qualifiers: vec![TypeQualifierSpec::Interpolation(spectra::syntax::InterpolationQualifier::Flat)] };
    let q = vertex_shader_input_qualifier(0, &Some(flat));
    assert_eq!(q.qualifiers.len(), 3);
    assert_eq!(location_of(&q), Some(0));
    assert_eq!(q.qualifiers[2], TypeQualifierSpec::Interpolation(spectra::syntax::InterpolationQualifier::Flat));
}

#[test]
fn vertex_inputs_skip_unnamed_arguments_but_keep_their_location() {
    let args = vec![named("position", BuiltinType::Vec3), unnamed(BuiltinType::Vec2), named("color", BuiltinType::Vec4)];
    let inputs = vertex_shader_inputs(&args).ok().unwrap();
    assert_eq!(inputs.len(), 2);
    assert_eq!(inputs[0].name.as_deref(), Some("position"));
    assert_eq!(location_of(inputs[0].ty.qualifier.as_ref().unwrap()), Some(0));
    assert_eq!(inputs[1].name.as_deref(), Some("color"));
    assert_eq!(location_of(inputs[1].ty.qualifier.as_ref().unwrap()), Some(2));
    assert_eq!(inputs[1].ty.ty, builtin(BuiltinType::Vec4));
    assert_eq!(inputs[1].initializer, None);
}

fn sized(n: i32) -> Option<ArraySpecifier> {
    Some(ArraySpecifier::ExplicitlySized(Expr::IntConst(n)))
}

fn prim_name(r: Result<LayoutQualifierSpec, GLSLConversionError>) -> String {
    match r {
        Ok(LayoutQualifierSpec::Identifier(n, None)) => n,
        _ => panic!("no primitive"),
    }
}

#[test]
fn geometry_input_primitive_follows_the_array_size() {
    assert_eq!(prim_name(guess_gs_input_prim(&sized(1))), "points");
    assert_eq!(prim_name(guess_gs_input_prim(&sized(2))), "lines");
    assert_eq!(prim_name(guess_gs_input_prim(&sized(3))), "triangles");
    assert_eq!(prim_name(guess_gs_input_prim(&sized(4))), "lines_adjacency");
    assert_eq!(prim_name(guess_gs_input_prim(&sized(6))), "triangles_adjacency");
}

#[test]
fn geometry_input_primitive_errors() {
    assert!(matches!(guess_gs_input_prim(&sized(5)), Err(GLSLConversionError::WrongGeometryInputDim(5))));
    assert!(matches!(guess_gs_input_prim(&None), Err(GLSLConversionError::WrongGeometryInput)));
    assert!(matches!(guess_gs_input_prim(&Some(ArraySpecifier::Unsized)), Err(GLSLConversionError::WrongGeometryInput)));
    assert!(matches!(
        guess_gs_input_prim(&Some(ArraySpecifier::ExplicitlySized(Expr::Other("n".to_owned())))),
        Err(GLSLConversionError::WrongGeometryInput)
    ));
}

#[test]
fn geometry_output_primitives() {
    assert!(check_gs_output_prim("points").is_ok());
    assert!(check_gs_output_prim("line_strip").is_ok());
    assert!(check_gs_output_prim("triangle_strip").is_ok());
    assert!(matches!(check_gs_output_prim("triangles"), Err(GLSLConversionError::WrongGeometryOutputLayout)));
    assert!(check_gs_output_prim("").is_err());
}

fn output_qualifier(prim: &str, key: &str, value: Option<Expr>, storage_q: StorageQualifier) -> TypeQualifier {
    TypeQualifier {
        qualifiers: vec![
            TypeQualifierSpec::Layout(LayoutQualifier {
                ids: vec![
                    LayoutQualifierSpec::Identifier(prim.to_owned(), None),
                    LayoutQualifierSpec::Identifier(key.to_owned(), value),
                ],
            }),
            TypeQualifierSpec::Storage(storage_q),
        ],
    }
}

#[test]
fn geometry_output_layout_metadata() {
    let good = output_qualifier("triangle_strip", "max_vertices", Some(Expr::IntConst(3)), StorageQualifier::Out);
    let layout = get_gs_output_layout_metadata(&Some(good)).ok().unwrap();
    assert_eq!(layout.ids.len(), 2);
    assert_eq!(layout.ids[0], LayoutQualifierSpec::Identifier("triangle_strip".to_owned(), None));

    let bad_prim = output_qualifier("triangles", "max_vertices", Some(Expr::IntConst(3)), StorageQualifier::Out);
    let bad_key = output_qualifier("points", "max_vertex", Some(Expr::IntConst(3)), StorageQualifier::Out);
    let bad_value = output_qualifier("points", "max_vertices", None, StorageQualifier::Out);
    let bad_storage = output_qualifier("points", "max_vertices", Some(Expr::IntConst(3)), StorageQualifier::In);
    for q in vec![bad_prim, bad_key, bad_value, bad_storage] {
        assert!(matches!(get_gs_output_layout_metadata(&Some(q)), Err(GLSLConversionError::WrongGeometryOutputLayout)));
    }
    assert!(matches!(get_gs_output_layout_metadata(&None), Err(GLSLConversionError::WrongGeometryOutputLayout)));
}

#[test]
fn special_functions_are_filtered_out() {
    let fs = vec![
        function("map_vertex", vec![]),
        function("helper", vec![]),
        function("concat_map_prim", vec![]),
        function("map_fragment", vec![]),
        function("map_vertex2", vec![]),
    ];
    let kept: Vec<&str> = filter_out_special_functions(&fs).iter().map(|f| f.prototype.name.as_str()).collect();
    assert_eq!(kept, vec!["helper", "map_vertex2"]);
}

#[test]
fn decimal_notation() {
    let mut s = String::from(">");
    write_decimal(&mut s, 0);
    write_decimal(&mut s, 7);
    s.push(' ');
    write_decimal(&mut s, 1204);
    assert_eq!(s, ">07 1204");
}

#[test]
fn input_argument_names() {
    let mut s = String::new();
    sink_vertex_shader_input_arg(&mut s, 12, &unnamed(BuiltinType::Float));
    s.push('|');
    sink_vertex_shader_input_arg(&mut s, 3, &named("uv", BuiltinType::Vec2));
    assert_eq!(s, "spsl_unused12|uv");
    assert!(is_fn_arg_named(&named("uv", BuiltinType::Vec2)));
    assert!(!is_fn_arg_named(&unnamed(BuiltinType::Vec2)));
}

#[test]
fn input_argument_list_keeps_the_first_and_the_named_ones() {
    let mut s = String::new();
    let f = function("map_vertex", vec![unnamed(BuiltinType::Vec3), named("normal", BuiltinType::Vec3), unnamed(BuiltinType::Vec2), named("color", BuiltinType::Vec4)]);
    sink_vertex_shader_input_args(&mut s, &f);
    assert_eq!(s, "spsl_unused0, normal, color");
    let mut e = String::from("x");
    sink_vertex_shader_input_args(&mut e, &function("map_vertex", vec![]));
    assert_eq!(e, "x");
}

#[test]
fn vertex_output_assignments() {
    let mut sink = String::from("  ");
    let mut assigns = String::new();
    sink_vertex_shader_output(&mut sink, &mut assigns, &vertex_struct());
    assert_eq!(sink, "  Vertex");
    assert_eq!(
        assigns,
        "  gl_Position = v.spsl_Position;\n  spsl_v_position = v.position;\n  spsl_v_normal = v.normal;\n  spsl_v_color = v.color;\n"
    );
}

#[test]
fn string_equality() {
    assert!(str_eq("abc", "abc"));
    assert!(!str_eq("abc", "abd"));
    assert!(!str_eq("ab", "abc"));
    assert!(str_eq("", ""));
}

#[test]
fn an_unnamed_parameter_drops_only_its_input() {
    let all = vec![named("position", BuiltinType::Vec3), named("uv", BuiltinType::Vec2), named("color", BuiltinType::Vec4)];
    let dropped = vec![named("position", BuiltinType::Vec3), unnamed(BuiltinType::Vec2), named("color", BuiltinType::Vec4)];
    let with = vertex_shader_inputs(&all).ok().unwrap();
    let without = vertex_shader_inputs(&dropped).ok().unwrap();
    assert_eq!(with.len(), 3);
    assert_eq!(without, vec![with[0].clone(), with[2].clone()]);
}

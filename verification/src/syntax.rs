use vstd::prelude::*;

verus! {

/// A module path, such as `foo.bar.zoo`, split on its dots.
#[derive(Clone, Debug, PartialEq)]
pub struct ModulePath {
    pub path: Vec<String>,
}

/// An import list: `from foo.bar.zoo import (yyyy, zzzz)`.
#[derive(Clone, Debug, PartialEq)]
pub struct ImportList {
    pub module: ModulePath,
    pub list: Vec<String>,
}

/// The components of a module path, as character sequences.
pub open spec fn path_parts(p: ModulePath) -> Seq<Seq<char>> {
    p.path@.map_values(|s: String| s@)
}

/// `parts` joined with `sep` between each two consecutive parts.
pub open spec fn seq_join(parts: Seq<Seq<char>>, sep: Seq<char>) -> Seq<char>
    decreases parts.len(),
{
    if parts.len() == 0 {
        Seq::empty()
    } else if parts.len() == 1 {
        parts[0]
    } else {
        seq_join(parts.drop_last(), sep) + sep + parts.last()
    }
}

/// The dotted form of a module path: its components joined by `.`.
pub open spec fn path_key(p: ModulePath) -> Seq<char> {
    seq_join(path_parts(p), seq!['.'])
}

/// Joins the components of a module path with dots, as in `foo.bar.zoo`.
pub fn join_path(p: &ModulePath) -> (res: String)
    ensures
        res@ == path_key(*p),
{
    let mut res = String::new();
    let n = p.path.len();
    let mut i: usize = 0;
    while i < n
        invariant
            n == p.path@.len(),
            i <= n,
            res@ == seq_join(path_parts(*p).take(i as int), seq!['.']),
        decreases n - i,
    {
        proof {
            reveal_strlit(".");
            assert(path_parts(*p).take(i + 1).drop_last() =~= path_parts(*p).take(i as int));
        }
        if i > 0 {
            res.append(".");
        }
        res.append(p.path[i].as_str());
        proof {
            let t = path_parts(*p).take(i + 1);
            assert(t.last() == p.path@[i as int]@);
            if i == 0 {
                assert(res@ =~= t[0]);
            } else {
                assert(res@ =~= seq_join(t.drop_last(), seq!['.']) + seq!['.'] + t.last());
            }
        }
        i = i + 1;
    }
    proof {
        assert(path_parts(*p).take(n as int) =~= path_parts(*p));
    }
    res
}

/// Expressions. Integer constants are kept as such; any other expression is kept as its source text.
#[derive(Clone, Debug, PartialEq)]
pub enum Expr {
    IntConst(i32),
    Other(String),
}

/// The model of an `Expr`.
pub enum SpecExpr {
    IntConst(i32),
    Other(Seq<char>),
}

impl View for Expr {
    type V = SpecExpr;

    open spec fn view(&self) -> SpecExpr {
        match self {
            Expr::IntConst(i) => SpecExpr::IntConst(*i),
            Expr::Other(s) => SpecExpr::Other(s@),
        }
    }
}

/// Array specifier: `[]` or `[n]`.
#[derive(Clone, Debug, PartialEq)]
pub enum ArraySpecifier {
    Unsized,
    ExplicitlySized(Expr),
}

pub enum SpecArraySpecifier {
    Unsized,
    ExplicitlySized(SpecExpr),
}

impl View for ArraySpecifier {
    type V = SpecArraySpecifier;

    open spec fn view(&self) -> SpecArraySpecifier {
        match self {
            ArraySpecifier::Unsized => SpecArraySpecifier::Unsized,
            ArraySpecifier::ExplicitlySized(e) => SpecArraySpecifier::ExplicitlySized(e@),
        }
    }
}

/// The model of an optional value.
pub open spec fn opt_view<T: View>(o: Option<T>) -> Option<T::V> {
    match o {
        Some(x) => Some(x@),
        None => None,
    }
}

/// The models of the elements of a sequence.
pub open spec fn seq_view<T: View>(s: Seq<T>) -> Seq<T::V> {
    s.map_values(|x: T| x@)
}

/// Storage qualifiers.
#[derive(Clone, Copy, Debug, PartialEq, Eq, Structural)]
pub enum StorageQualifier {
    Const,
    InOut,
    In,
    Out,
    Centroid,
    Patch,
    Sample,
    Uniform,
    Buffer,
    Shared,
    Coherent,
    Volatile,
    Restrict,
    ReadOnly,
    WriteOnly,
    Subroutine,
}

/// Precision qualifiers.
#[derive(Clone, Copy, Debug, PartialEq, Eq, Structural)]
pub enum PrecisionQualifier {
    High,
    Medium,
    Low,
}

/// Interpolation qualifiers.
#[derive(Clone, Copy, Debug, PartialEq, Eq, Structural)]
pub enum InterpolationQualifier {
    Smooth,
    Flat,
    NoPerspective,
}

/// One entry of a layout qualifier: `name` or `name = value`.
#[derive(Clone, Debug, PartialEq)]
pub enum LayoutQualifierSpec {
    Identifier(String, Option<Expr>),
    Shared,
}

pub enum SpecLayoutQualifierSpec {
    Identifier(Seq<char>, Option<SpecExpr>),
    Shared,
}

impl View for LayoutQualifierSpec {
    type V = SpecLayoutQualifierSpec;

    open spec fn view(&self) -> SpecLayoutQualifierSpec {
        match self {
            LayoutQualifierSpec::Identifier(n, e) => SpecLayoutQualifierSpec::Identifier(n@, opt_view(*e)),
            LayoutQualifierSpec::Shared => SpecLayoutQualifierSpec::Shared,
        }
    }
}

/// A layout qualifier: `layout (ids...)`.
#[derive(Clone, Debug, PartialEq)]
pub struct LayoutQualifier {
    pub ids: Vec<LayoutQualifierSpec>,
}

pub struct SpecLayoutQualifier {
    pub ids: Seq<SpecLayoutQualifierSpec>,
}

impl View for LayoutQualifier {
    type V = SpecLayoutQualifier;

    open spec fn view(&self) -> SpecLayoutQualifier {
        SpecLayoutQualifier { ids: seq_view(self.ids@) }
    }
}

/// One type qualifier.
#[derive(Clone, Debug, PartialEq)]
pub enum TypeQualifierSpec {
    Storage(StorageQualifier),
    Layout(LayoutQualifier),
    Precision(PrecisionQualifier),
    Interpolation(InterpolationQualifier),
    Invariant,
    Precise,
}

pub enum SpecTypeQualifierSpec {
    Storage(StorageQualifier),
    Layout(SpecLayoutQualifier),
    Precision(PrecisionQualifier),
    Interpolation(InterpolationQualifier),
    Invariant,
    Precise,
}

impl View for TypeQualifierSpec {
    type V = SpecTypeQualifierSpec;

    open spec fn view(&self) -> SpecTypeQualifierSpec {
        match self {
            TypeQualifierSpec::Storage(q) => SpecTypeQualifierSpec::Storage(*q),
            TypeQualifierSpec::Layout(l) => SpecTypeQualifierSpec::Layout(l@),
            TypeQualifierSpec::Precision(q) => SpecTypeQualifierSpec::Precision(*q),
            TypeQualifierSpec::Interpolation(q) => SpecTypeQualifierSpec::Interpolation(*q),
            TypeQualifierSpec::Invariant => SpecTypeQualifierSpec::Invariant,
            TypeQualifierSpec::Precise => SpecTypeQualifierSpec::Precise,
        }
    }
}

/// The qualifiers of a type, in order.
#[derive(Clone, Debug, PartialEq)]
pub struct TypeQualifier {
    pub qualifiers: Vec<TypeQualifierSpec>,
}

pub struct SpecTypeQualifier {
    pub qualifiers: Seq<SpecTypeQualifierSpec>,
}

impl View for TypeQualifier {
    type V = SpecTypeQualifier;

    open spec fn view(&self) -> SpecTypeQualifier {
        SpecTypeQualifier { qualifiers: seq_view(self.qualifiers@) }
    }
}

/// The built-in types of GLSL that carry no name.
#[derive(Clone, Copy, Debug, PartialEq, Eq, Structural)]
pub enum BuiltinType {
    Void,
    Bool,
    Int,
    UInt,
    Float,
    Double,
    Vec2,
    Vec3,
    Vec4,
    DVec2,
    DVec3,
    DVec4,
    BVec2,
    BVec3,
    BVec4,
    IVec2,
    IVec3,
    IVec4,
    UVec2,
    UVec3,
    UVec4,
    Mat2,
    Mat3,
    Mat4,
    Sampler1D,
    Sampler2D,
    Sampler3D,
    SamplerCube,
}

/// A type without its array part: a built-in type, a struct definition or a type name.
#[derive(Debug, PartialEq)]
pub enum TypeSpecifierNonArray {
    Builtin(BuiltinType),
    Struct(StructSpecifier),
    TypeName(String),
}

/// A type with its optional array part.
#[derive(Debug, PartialEq)]
pub struct TypeSpecifier {
    pub ty: TypeSpecifierNonArray,
    pub array_specifier: Option<ArraySpecifier>,
}

/// A struct definition: `struct name { fields }`.
#[derive(Debug, PartialEq)]
pub struct StructSpecifier {
    pub name: Option<String>,
    pub fields: Vec<StructFieldSpecifier>,
}

/// A field of a struct: an optional qualifier, a type and the names declared with it.
#[derive(Debug, PartialEq)]
pub struct StructFieldSpecifier {
    pub qualifier: Option<TypeQualifier>,
    pub ty: TypeSpecifier,
    pub identifiers: Vec<(String, Option<ArraySpecifier>)>,
}

pub enum SpecTypeSpecifierNonArray {
    Builtin(BuiltinType),
    Struct(SpecStructSpecifier),
    TypeName(Seq<char>),
}

pub struct SpecTypeSpecifier {
    pub ty: SpecTypeSpecifierNonArray,
    pub array_specifier: Option<SpecArraySpecifier>,
}

pub struct SpecStructSpecifier {
    pub name: Option<Seq<char>>,
    pub fields: Seq<SpecStructFieldSpecifier>,
}

pub struct SpecStructFieldSpecifier {
    pub qualifier: Option<SpecTypeQualifier>,
    pub ty: SpecTypeSpecifier,
    pub identifiers: Seq<(Seq<char>, Option<SpecArraySpecifier>)>,
}

/// The model of a declared name with its optional array part.
pub open spec fn identifier_view(id: (String, Option<ArraySpecifier>)) -> (Seq<char>, Option<SpecArraySpecifier>) {
    (id.0@, opt_view(id.1))
}

/// The model of an optional string.
pub open spec fn opt_string_view(o: Option<String>) -> Option<Seq<char>> {
    match o {
        Some(s) => Some(s@),
        None => None,
    }
}

pub open spec fn type_non_array_view(t: TypeSpecifierNonArray) -> SpecTypeSpecifierNonArray
    decreases t,
{
    match t {
        TypeSpecifierNonArray::Builtin(b) => SpecTypeSpecifierNonArray::Builtin(b),
        TypeSpecifierNonArray::Struct(s) => SpecTypeSpecifierNonArray::Struct(struct_view(s)),
        TypeSpecifierNonArray::TypeName(n) => SpecTypeSpecifierNonArray::TypeName(n@),
    }
}

pub open spec fn type_view(t: TypeSpecifier) -> SpecTypeSpecifier
    decreases t,
{
    SpecTypeSpecifier { ty: type_non_array_view(t.ty), array_specifier: opt_view(t.array_specifier) }
}

pub open spec fn field_view(f: StructFieldSpecifier) -> SpecStructFieldSpecifier
    decreases f,
{
    SpecStructFieldSpecifier {
        qualifier: opt_view(f.qualifier),
        ty: type_view(f.ty),
        identifiers: f.identifiers@.map_values(|id: (String, Option<ArraySpecifier>)| identifier_view(id)),
    }
}

pub open spec fn fields_view(fs: Seq<StructFieldSpecifier>) -> Seq<SpecStructFieldSpecifier>
    decreases fs,
{
    if fs.len() == 0 {
        Seq::empty()
    } else {
        fields_view(fs.drop_last()).push(field_view(fs.last()))
    }
}

pub open spec fn struct_view(s: StructSpecifier) -> SpecStructSpecifier
    decreases s,
{
    SpecStructSpecifier { name: opt_string_view(s.name), fields: fields_view(s.fields@) }
}

/// `fields_view` maps each field to its model.
pub proof fn lemma_fields_view(fs: Seq<StructFieldSpecifier>)
    ensures
        fields_view(fs).len() == fs.len(),
        forall|i: int| 0 <= i < fs.len() ==> #[trigger] fields_view(fs)[i] == field_view(fs[i]),
    decreases fs.len(),
{
    if fs.len() > 0 {
        lemma_fields_view(fs.drop_last());
    }
}

impl View for TypeSpecifierNonArray {
    type V = SpecTypeSpecifierNonArray;

    open spec fn view(&self) -> SpecTypeSpecifierNonArray {
        type_non_array_view(*self)
    }
}

impl View for TypeSpecifier {
    type V = SpecTypeSpecifier;

    open spec fn view(&self) -> SpecTypeSpecifier {
        type_view(*self)
    }
}

impl View for StructSpecifier {
    type V = SpecStructSpecifier;

    open spec fn view(&self) -> SpecStructSpecifier {
        struct_view(*self)
    }
}

impl View for StructFieldSpecifier {
    type V = SpecStructFieldSpecifier;

    open spec fn view(&self) -> SpecStructFieldSpecifier {
        field_view(*self)
    }
}

/// A type with its optional qualifier.
#[derive(Clone, Debug, PartialEq)]
pub struct FullySpecifiedType {
    pub qualifier: Option<TypeQualifier>,
    pub ty: TypeSpecifier,
}

pub struct SpecFullySpecifiedType {
    pub qualifier: Option<SpecTypeQualifier>,
    pub ty: SpecTypeSpecifier,
}

impl View for FullySpecifiedType {
    type V = SpecFullySpecifiedType;

    open spec fn view(&self) -> SpecFullySpecifiedType {
        SpecFullySpecifiedType { qualifier: opt_view(self.qualifier), ty: self.ty@ }
    }
}

/// The first declaration of a declaration list, which carries the type.
#[derive(Clone, Debug, PartialEq)]
pub struct SingleDeclaration {
    pub ty: FullySpecifiedType,
    pub name: Option<String>,
    pub array_specifier: Option<ArraySpecifier>,
    pub initializer: Option<Expr>,
}

pub struct SpecSingleDeclaration {
    pub ty: SpecFullySpecifiedType,
    pub name: Option<Seq<char>>,
    pub array_specifier: Option<SpecArraySpecifier>,
    pub initializer: Option<SpecExpr>,
}

impl View for SingleDeclaration {
    type V = SpecSingleDeclaration;

    open spec fn view(&self) -> SpecSingleDeclaration {
        SpecSingleDeclaration {
            ty: self.ty@,
            name: opt_string_view(self.name),
            array_specifier: opt_view(self.array_specifier),
            initializer: opt_view(self.initializer),
        }
    }
}

/// A further declaration of a declaration list, which shares the type of the first.
#[derive(Clone, Debug, PartialEq)]
pub struct SingleDeclarationNoType {
    pub name: String,
    pub array_specifier: Option<ArraySpecifier>,
    pub initializer: Option<Expr>,
}

pub struct SpecSingleDeclarationNoType {
    pub name: Seq<char>,
    pub array_specifier: Option<SpecArraySpecifier>,
    pub initializer: Option<SpecExpr>,
}

impl View for SingleDeclarationNoType {
    type V = SpecSingleDeclarationNoType;

    open spec fn view(&self) -> SpecSingleDeclarationNoType {
        SpecSingleDeclarationNoType {
            name: self.name@,
            array_specifier: opt_view(self.array_specifier),
            initializer: opt_view(self.initializer),
        }
    }
}

/// A declaration list: `type a, b[2], c = 1;`.
#[derive(Clone, Debug, PartialEq)]
pub struct InitDeclaratorList {
    pub head: SingleDeclaration,
    pub tail: Vec<SingleDeclarationNoType>,
}

pub struct SpecInitDeclaratorList {
    pub head: SpecSingleDeclaration,
    pub tail: Seq<SpecSingleDeclarationNoType>,
}

impl View for InitDeclaratorList {
    type V = SpecInitDeclaratorList;

    open spec fn view(&self) -> SpecInitDeclaratorList {
        SpecInitDeclaratorList { head: self.head@, tail: seq_view(self.tail@) }
    }
}

/// An interface block: `qualifier name { fields } identifier;`.
#[derive(Clone, Debug, PartialEq)]
pub struct Block {
    pub qualifier: TypeQualifier,
    pub name: String,
    pub fields: Vec<StructFieldSpecifier>,
    pub identifier: Option<(String, Option<ArraySpecifier>)>,
}

pub struct SpecBlock {
    pub qualifier: SpecTypeQualifier,
    pub name: Seq<char>,
    pub fields: Seq<SpecStructFieldSpecifier>,
    pub identifier: Option<(Seq<char>, Option<SpecArraySpecifier>)>,
}

impl View for Block {
    type V = SpecBlock;

    open spec fn view(&self) -> SpecBlock {
        SpecBlock {
            qualifier: self.qualifier@,
            name: self.name@,
            fields: fields_view(self.fields@),
            identifier: match self.identifier {
                Some(id) => Some(identifier_view(id)),
                None => None,
            },
        }
    }
}

/// A named parameter of a function: its type, name and optional array part.
#[derive(Clone, Debug, PartialEq)]
pub struct FunctionParameterDeclarator {
    pub ty: TypeSpecifier,
    pub name: String,
    pub array_spec: Option<ArraySpecifier>,
}

pub struct SpecFunctionParameterDeclarator {
    pub ty: SpecTypeSpecifier,
    pub name: Seq<char>,
    pub array_spec: Option<SpecArraySpecifier>,
}

impl View for FunctionParameterDeclarator {
    type V = SpecFunctionParameterDeclarator;

    open spec fn view(&self) -> SpecFunctionParameterDeclarator {
        SpecFunctionParameterDeclarator { ty: self.ty@, name: self.name@, array_spec: opt_view(self.array_spec) }
    }
}

/// A parameter of a function, named or not.
#[derive(Clone, Debug, PartialEq)]
pub enum FunctionParameterDeclaration {
    Named(Option<TypeQualifier>, FunctionParameterDeclarator),
    Unnamed(Option<TypeQualifier>, TypeSpecifier),
}

pub enum SpecFunctionParameterDeclaration {
    Named(Option<SpecTypeQualifier>, SpecFunctionParameterDeclarator),
    Unnamed(Option<SpecTypeQualifier>, SpecTypeSpecifier),
}

impl View for FunctionParameterDeclaration {
    type V = SpecFunctionParameterDeclaration;

    open spec fn view(&self) -> SpecFunctionParameterDeclaration {
        match self {
            FunctionParameterDeclaration::Named(q, d) => SpecFunctionParameterDeclaration::Named(opt_view(*q), d@),
            FunctionParameterDeclaration::Unnamed(q, t) => SpecFunctionParameterDeclaration::Unnamed(opt_view(*q), t@),
        }
    }
}

/// A function prototype: return type, name and parameters.
#[derive(Clone, Debug, PartialEq)]
pub struct FunctionPrototype {
    pub ty: FullySpecifiedType,
    pub name: String,
    pub parameters: Vec<FunctionParameterDeclaration>,
}

pub struct SpecFunctionPrototype {
    pub ty: SpecFullySpecifiedType,
    pub name: Seq<char>,
    pub parameters: Seq<SpecFunctionParameterDeclaration>,
}

impl View for FunctionPrototype {
    type V = SpecFunctionPrototype;

    open spec fn view(&self) -> SpecFunctionPrototype {
        SpecFunctionPrototype { ty: self.ty@, name: self.name@, parameters: seq_view(self.parameters@) }
    }
}

/// A function definition: its prototype and the source text of the statements of its body.
#[derive(Clone, Debug, PartialEq)]
pub struct FunctionDefinition {
    pub prototype: FunctionPrototype,
    pub statement: String,
}

pub struct SpecFunctionDefinition {
    pub prototype: SpecFunctionPrototype,
    pub statement: Seq<char>,
}

impl View for FunctionDefinition {
    type V = SpecFunctionDefinition;

    open spec fn view(&self) -> SpecFunctionDefinition {
        SpecFunctionDefinition { prototype: self.prototype@, statement: self.statement@ }
    }
}

/// A declaration.
#[derive(Clone, Debug, PartialEq)]
pub enum Declaration {
    FunctionPrototype(FunctionPrototype),
    InitDeclaratorList(InitDeclaratorList),
    Precision(PrecisionQualifier, TypeSpecifier),
    Block(Block),
    Global(TypeQualifier, Vec<String>),
}

pub enum SpecDeclaration {
    FunctionPrototype(SpecFunctionPrototype),
    InitDeclaratorList(SpecInitDeclaratorList),
    Precision(PrecisionQualifier, SpecTypeSpecifier),
    Block(SpecBlock),
    Global(SpecTypeQualifier, Seq<Seq<char>>),
}

impl View for Declaration {
    type V = SpecDeclaration;

    open spec fn view(&self) -> SpecDeclaration {
        match self {
            Declaration::FunctionPrototype(p) => SpecDeclaration::FunctionPrototype(p@),
            Declaration::InitDeclaratorList(l) => SpecDeclaration::InitDeclaratorList(l@),
            Declaration::Precision(q, t) => SpecDeclaration::Precision(*q, t@),
            Declaration::Block(b) => SpecDeclaration::Block(b@),
            Declaration::Global(q, names) => SpecDeclaration::Global(q@, names@.map_values(|n: String| n@)),
        }
    }
}

/// A top-level item of a GLSL module.
#[derive(Clone, Debug, PartialEq)]
pub enum ExternalDeclaration {
    Preprocessor(String),
    FunctionDefinition(FunctionDefinition),
    Declaration(Declaration),
}

pub enum SpecExternalDeclaration {
    Preprocessor(Seq<char>),
    FunctionDefinition(SpecFunctionDefinition),
    Declaration(SpecDeclaration),
}

impl View for ExternalDeclaration {
    type V = SpecExternalDeclaration;

    open spec fn view(&self) -> SpecExternalDeclaration {
        match self {
            ExternalDeclaration::Preprocessor(s) => SpecExternalDeclaration::Preprocessor(s@),
            ExternalDeclaration::FunctionDefinition(f) => SpecExternalDeclaration::FunctionDefinition(f@),
            ExternalDeclaration::Declaration(d) => SpecExternalDeclaration::Declaration(d@),
        }
    }
}

/// Errors raised while turning a module into pipeline stages.
#[derive(Clone, Debug, PartialEq)]
pub enum GLSLConversionError {
    NoVertexShader,
    NoFragmentShader,
    OutputHasMainQualifier,
    WrongOutputFirstField(StructFieldSpecifier),
    ReturnTypeMustBeAStruct(TypeSpecifier),
    WrongNumberOfArgs(usize, usize),
    UnknownInputType(String),
    WrongGeometryInputDim(usize),
    WrongGeometryInput,
    WrongGeometryOutputLayout,
    /// A field of a stage's output is itself a struct, which cannot cross stages.
    CompositeOutputField(StructFieldSpecifier),
    /// The input of a stage function is not given by a type name.
    InputTypeMustBeAStruct(TypeSpecifier),
}

/// The model of a `GLSLConversionError`.
pub enum SpecConversionError {
    NoVertexShader,
    NoFragmentShader,
    OutputHasMainQualifier,
    WrongOutputFirstField(SpecStructFieldSpecifier),
    ReturnTypeMustBeAStruct(SpecTypeSpecifier),
    WrongNumberOfArgs(usize, usize),
    UnknownInputType(Seq<char>),
    WrongGeometryInputDim(usize),
    WrongGeometryInput,
    WrongGeometryOutputLayout,
    CompositeOutputField(SpecStructFieldSpecifier),
    InputTypeMustBeAStruct(SpecTypeSpecifier),
}

impl View for GLSLConversionError {
    type V = SpecConversionError;

    open spec fn view(&self) -> SpecConversionError {
        match self {
            GLSLConversionError::NoVertexShader => SpecConversionError::NoVertexShader,
            GLSLConversionError::NoFragmentShader => SpecConversionError::NoFragmentShader,
            GLSLConversionError::OutputHasMainQualifier => SpecConversionError::OutputHasMainQualifier,
            GLSLConversionError::WrongOutputFirstField(f) => SpecConversionError::WrongOutputFirstField(f@),
            GLSLConversionError::ReturnTypeMustBeAStruct(t) => SpecConversionError::ReturnTypeMustBeAStruct(t@),
            GLSLConversionError::WrongNumberOfArgs(a, b) => SpecConversionError::WrongNumberOfArgs(*a, *b),
            GLSLConversionError::UnknownInputType(n) => SpecConversionError::UnknownInputType(n@),
            GLSLConversionError::WrongGeometryInputDim(d) => SpecConversionError::WrongGeometryInputDim(*d),
            GLSLConversionError::WrongGeometryInput => SpecConversionError::WrongGeometryInput,
            GLSLConversionError::WrongGeometryOutputLayout => SpecConversionError::WrongGeometryOutputLayout,
            GLSLConversionError::CompositeOutputField(f) => SpecConversionError::CompositeOutputField(f@),
            GLSLConversionError::InputTypeMustBeAStruct(t) => SpecConversionError::InputTypeMustBeAStruct(t@),
        }
    }
}

/// The model of a result: the model of the value or of the error.
pub open spec fn result_view<T: View, E: View>(r: Result<T, E>) -> Result<T::V, E::V> {
    match r {
        Ok(v) => Ok(v@),
        Err(e) => Err(e@),
    }
}

/// The concatenation of `f` applied to each element of `s`, in order.
pub open spec fn concat_map<A, B>(s: Seq<A>, f: spec_fn(A) -> Seq<B>) -> Seq<B>
    decreases s.len(),
{
    if s.len() == 0 {
        Seq::empty()
    } else {
        concat_map(s.drop_last(), f) + f(s.last())
    }
}

/// Extending `s` by one element extends `concat_map(s, f)` by the image of that element.
pub proof fn lemma_concat_map_push<A, B>(s: Seq<A>, x: A, f: spec_fn(A) -> Seq<B>)
    ensures
        concat_map(s.push(x), f) == concat_map(s, f) + f(x),
{
    assert(s.push(x).drop_last() =~= s);
}

} // verus!

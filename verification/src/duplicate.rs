use vstd::prelude::*;

use crate::syntax::{
    fields_view, identifier_view, lemma_fields_view, opt_string_view, opt_view, seq_view,
    ArraySpecifier, Block, Declaration, Expr, ExternalDeclaration,
    FullySpecifiedType, FunctionDefinition, FunctionParameterDeclaration,
    FunctionParameterDeclarator, FunctionPrototype, InitDeclaratorList, LayoutQualifier,
    LayoutQualifierSpec, SingleDeclaration, SingleDeclarationNoType, StructFieldSpecifier,
    StructSpecifier, TypeQualifier, TypeQualifierSpec, TypeSpecifier, TypeSpecifierNonArray,
};

verus! {

/// Values that can be copied into a new value with the same model.
pub trait Duplicate: View + Sized {
    fn duplicate(&self) -> (res: Self)
        ensures
            res@ == self@,
    ;
}

/// Copies every element of `v`.
pub fn duplicate_vec<T: Duplicate>(v: &Vec<T>) -> (res: Vec<T>)
    ensures
        seq_view(res@) == seq_view(v@),
{
    let mut res: Vec<T> = Vec::new();
    let n = v.len();
    let mut i: usize = 0;
    while i < n
        invariant
            n == v@.len(),
            i <= n,
            res@.len() == i,
            forall|j: int| 0 <= j < i ==> #[trigger] res@[j]@ == v@[j]@,
        decreases n - i,
    {
        res.push(v[i].duplicate());
        i = i + 1;
    }
    assert(seq_view(res@) =~= seq_view(v@));
    res
}

/// Copies the value of `o`, if any.
pub fn duplicate_opt<T: Duplicate>(o: &Option<T>) -> (res: Option<T>)
    ensures
        opt_view(res) == opt_view(*o),
{
    match o {
        Some(x) => Some(x.duplicate()),
        None => None,
    }
}

/// Copies an optional string.
pub fn duplicate_opt_string(o: &Option<String>) -> (res: Option<String>)
    ensures
        opt_string_view(res) == opt_string_view(*o),
{
    match o {
        Some(x) => Some(x.clone()),
        None => None,
    }
}

impl Duplicate for String {
    fn duplicate(&self) -> (res: Self) {
        self.clone()
    }
}

impl Duplicate for Expr {
    fn duplicate(&self) -> (res: Self) {
        match self {
            Expr::IntConst(i) => Expr::IntConst(*i),
            Expr::Other(s) => Expr::Other(s.clone()),
        }
    }
}

impl Duplicate for ArraySpecifier {
    fn duplicate(&self) -> (res: Self) {
        match self {
            ArraySpecifier::Unsized => ArraySpecifier::Unsized,
            ArraySpecifier::ExplicitlySized(e) => ArraySpecifier::ExplicitlySized(e.duplicate()),
        }
    }
}

impl Duplicate for LayoutQualifierSpec {
    fn duplicate(&self) -> (res: Self) {
        match self {
            LayoutQualifierSpec::Identifier(n, e) => LayoutQualifierSpec::Identifier(n.clone(), duplicate_opt(e)),
            LayoutQualifierSpec::Shared => LayoutQualifierSpec::Shared,
        }
    }
}

impl Duplicate for LayoutQualifier {
    fn duplicate(&self) -> (res: Self) {
        LayoutQualifier { ids: duplicate_vec(&self.ids) }
    }
}

impl Duplicate for TypeQualifierSpec {
    fn duplicate(&self) -> (res: Self) {
        match self {
            TypeQualifierSpec::Storage(q) => TypeQualifierSpec::Storage(*q),
            TypeQualifierSpec::Layout(l) => TypeQualifierSpec::Layout(l.duplicate()),
            TypeQualifierSpec::Precision(q) => TypeQualifierSpec::Precision(*q),
            TypeQualifierSpec::Interpolation(q) => TypeQualifierSpec::Interpolation(*q),
            TypeQualifierSpec::Invariant => TypeQualifierSpec::Invariant,
            TypeQualifierSpec::Precise => TypeQualifierSpec::Precise,
        }
    }
}

impl Duplicate for TypeQualifier {
    fn duplicate(&self) -> (res: Self) {
        TypeQualifier { qualifiers: duplicate_vec(&self.qualifiers) }
    }
}

/// Copies a declared name with its optional array part.
pub fn duplicate_identifier(id: &(String, Option<ArraySpecifier>)) -> (res: (String, Option<ArraySpecifier>))
    ensures
        identifier_view(res) == identifier_view(*id),
{
    (id.0.clone(), duplicate_opt(&id.1))
}

/// Copies a list of declared names with their optional array parts.
pub fn duplicate_identifiers(v: &Vec<(String, Option<ArraySpecifier>)>) -> (res: Vec<(String, Option<ArraySpecifier>)>)
    ensures
        res@.map_values(|id: (String, Option<ArraySpecifier>)| identifier_view(id))
            == v@.map_values(|id: (String, Option<ArraySpecifier>)| identifier_view(id)),
{
    let mut res: Vec<(String, Option<ArraySpecifier>)> = Vec::new();
    let n = v.len();
    let mut i: usize = 0;
    while i < n
        invariant
            n == v@.len(),
            i <= n,
            res@.len() == i,
            forall|j: int| 0 <= j < i ==> identifier_view(#[trigger] res@[j]) == identifier_view(v@[j]),
        decreases n - i,
    {
        res.push(duplicate_identifier(&v[i]));
        i = i + 1;
    }
    assert(res@.map_values(|id: (String, Option<ArraySpecifier>)| identifier_view(id))
        =~= v@.map_values(|id: (String, Option<ArraySpecifier>)| identifier_view(id)));
    res
}

fn duplicate_type_non_array(t: &TypeSpecifierNonArray) -> (res: TypeSpecifierNonArray)
    ensures
        res@ == t@,
    decreases t,
{
    match t {
        TypeSpecifierNonArray::Builtin(b) => TypeSpecifierNonArray::Builtin(*b),
        TypeSpecifierNonArray::Struct(s) => TypeSpecifierNonArray::Struct(duplicate_struct(s)),
        TypeSpecifierNonArray::TypeName(n) => TypeSpecifierNonArray::TypeName(n.clone()),
    }
}

fn duplicate_type(t: &TypeSpecifier) -> (res: TypeSpecifier)
    ensures
        res@ == t@,
    decreases t,
{
    let ty = duplicate_type_non_array(&t.ty);
    TypeSpecifier { ty, array_specifier: duplicate_opt(&t.array_specifier) }
}

fn duplicate_field(f: &StructFieldSpecifier) -> (res: StructFieldSpecifier)
    ensures
        res@ == f@,
    decreases f,
{
    let ty = duplicate_type(&f.ty);
    StructFieldSpecifier {
        qualifier: duplicate_opt(&f.qualifier),
        ty,
        identifiers: duplicate_identifiers(&f.identifiers),
    }
}

/// Copies a list of struct fields.
fn duplicate_fields(fs: &Vec<StructFieldSpecifier>) -> (res: Vec<StructFieldSpecifier>)
    ensures
        fields_view(res@) == fields_view(fs@),
    decreases fs@,
{
    let mut res: Vec<StructFieldSpecifier> = Vec::new();
    let n = fs.len();
    let mut i: usize = 0;
    while i < n
        invariant
            n == fs@.len(),
            i <= n,
            res@.len() == i,
            forall|j: int| 0 <= j < i ==> #[trigger] res@[j]@ == fs@[j]@,
        decreases n - i,
    {
        proof {
            assert(decreases_to!(fs@ => fs@[i as int]));
        }
        res.push(duplicate_field(&fs[i]));
        i = i + 1;
    }
    proof {
        lemma_fields_view(res@);
        lemma_fields_view(fs@);
        assert forall|j: int| 0 <= j < n implies fields_view(res@)[j] == fields_view(fs@)[j] by {
            assert(res@[j]@ == fs@[j]@);
        }
        assert(fields_view(res@) =~= fields_view(fs@));
    }
    res
}

fn duplicate_struct(s: &StructSpecifier) -> (res: StructSpecifier)
    ensures
        res@ == s@,
    decreases s,
{
    let fields = duplicate_fields(&s.fields);
    StructSpecifier { name: duplicate_opt_string(&s.name), fields }
}

impl Clone for TypeSpecifierNonArray {
    fn clone(&self) -> (res: Self)
        ensures
            res@ == self@,
    {
        duplicate_type_non_array(self)
    }
}

impl Clone for TypeSpecifier {
    fn clone(&self) -> (res: Self)
        ensures
            res@ == self@,
    {
        duplicate_type(self)
    }
}

impl Clone for StructFieldSpecifier {
    fn clone(&self) -> (res: Self)
        ensures
            res@ == self@,
    {
        duplicate_field(self)
    }
}

impl Clone for StructSpecifier {
    fn clone(&self) -> (res: Self)
        ensures
            res@ == self@,
    {
        duplicate_struct(self)
    }
}

impl Duplicate for TypeSpecifierNonArray {
    fn duplicate(&self) -> (res: Self) {
        duplicate_type_non_array(self)
    }
}

impl Duplicate for TypeSpecifier {
    fn duplicate(&self) -> (res: Self) {
        duplicate_type(self)
    }
}

impl Duplicate for StructFieldSpecifier {
    fn duplicate(&self) -> (res: Self) {
        duplicate_field(self)
    }
}

impl Duplicate for StructSpecifier {
    fn duplicate(&self) -> (res: Self) {
        duplicate_struct(self)
    }
}

impl Duplicate for FullySpecifiedType {
    fn duplicate(&self) -> (res: Self) {
        FullySpecifiedType { qualifier: duplicate_opt(&self.qualifier), ty: self.ty.duplicate() }
    }
}

impl Duplicate for SingleDeclaration {
    fn duplicate(&self) -> (res: Self) {
        SingleDeclaration {
            ty: self.ty.duplicate(),
            name: duplicate_opt_string(&self.name),
            array_specifier: duplicate_opt(&self.array_specifier),
            initializer: duplicate_opt(&self.initializer),
        }
    }
}

impl Duplicate for SingleDeclarationNoType {
    fn duplicate(&self) -> (res: Self) {
        SingleDeclarationNoType {
            name: self.name.clone(),
            array_specifier: duplicate_opt(&self.array_specifier),
            initializer: duplicate_opt(&self.initializer),
        }
    }
}

impl Duplicate for InitDeclaratorList {
    fn duplicate(&self) -> (res: Self) {
        InitDeclaratorList { head: self.head.duplicate(), tail: duplicate_vec(&self.tail) }
    }
}

impl Duplicate for Block {
    fn duplicate(&self) -> (res: Self) {
        let identifier = match &self.identifier {
            Some(id) => Some(duplicate_identifier(id)),
            None => None,
        };
        Block {
            qualifier: self.qualifier.duplicate(),
            name: self.name.clone(),
            fields: duplicate_fields(&self.fields),
            identifier,
        }
    }
}

impl Duplicate for FunctionParameterDeclarator {
    fn duplicate(&self) -> (res: Self) {
        FunctionParameterDeclarator {
            ty: self.ty.duplicate(),
            name: self.name.clone(),
            array_spec: duplicate_opt(&self.array_spec),
        }
    }
}

impl Duplicate for FunctionParameterDeclaration {
    fn duplicate(&self) -> (res: Self) {
        match self {
            FunctionParameterDeclaration::Named(q, d) => FunctionParameterDeclaration::Named(duplicate_opt(q), d.duplicate()),
            FunctionParameterDeclaration::Unnamed(q, t) => FunctionParameterDeclaration::Unnamed(duplicate_opt(q), t.duplicate()),
        }
    }
}

impl Duplicate for FunctionPrototype {
    fn duplicate(&self) -> (res: Self) {
        FunctionPrototype {
            ty: self.ty.duplicate(),
            name: self.name.clone(),
            parameters: duplicate_vec(&self.parameters),
        }
    }
}

impl Duplicate for FunctionDefinition {
    fn duplicate(&self) -> (res: Self) {
        FunctionDefinition { prototype: self.prototype.duplicate(), statement: self.statement.clone() }
    }
}

impl Duplicate for Declaration {
    fn duplicate(&self) -> (res: Self) {
        match self {
            Declaration::FunctionPrototype(p) => Declaration::FunctionPrototype(p.duplicate()),
            Declaration::InitDeclaratorList(l) => Declaration::InitDeclaratorList(l.duplicate()),
            Declaration::Precision(q, t) => Declaration::Precision(*q, t.duplicate()),
            Declaration::Block(b) => Declaration::Block(b.duplicate()),
            Declaration::Global(q, names) => {
                let names2 = duplicate_vec(names);
                proof {
                    assert(names2@.map_values(|n: String| n@) =~= seq_view(names2@));
                    assert(names@.map_values(|n: String| n@) =~= seq_view(names@));
                }
                Declaration::Global(q.duplicate(), names2)
            },
        }
    }
}

impl Duplicate for ExternalDeclaration {
    fn duplicate(&self) -> (res: Self) {
        match self {
            ExternalDeclaration::Preprocessor(s) => ExternalDeclaration::Preprocessor(s.clone()),
            ExternalDeclaration::FunctionDefinition(f) => ExternalDeclaration::FunctionDefinition(f.duplicate()),
            ExternalDeclaration::Declaration(d) => ExternalDeclaration::Declaration(d.duplicate()),
        }
    }
}

} // verus!

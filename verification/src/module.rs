use vstd::prelude::*;

use crate::graph::{
    closes_cycle, dfs_deps, lemma_closes_cycle, visit, DepsOutcome, dependency_order, edge_at, is_path, lemma_complete_order, lemma_distinct_bounded, loaded_from,
    acyclic_from, misses, occurs_before, path_from, reaches, revisits, Graph,
};
use crate::duplicate::Duplicate;
use crate::syntax::{
    concat_map, join_path, seq_join, lemma_concat_map_push, path_key, seq_view, Block, Declaration,
    ExternalDeclaration, FunctionDefinition, ImportList, SingleDeclaration, SpecBlock,
    SpecDeclaration, SpecExternalDeclaration, SpecFullySpecifiedType, SpecFunctionDefinition, SpecSingleDeclaration,
    SpecInitDeclaratorList, SpecSingleDeclarationNoType, SpecStructSpecifier, SpecTypeQualifier, SpecTypeQualifierSpec,
    SpecTypeSpecifierNonArray, StorageQualifier, StructSpecifier, TypeQualifier,
    TypeQualifierSpec, TypeSpecifierNonArray,
};

verus! {

/// Key to use to get a `Module`.
#[derive(Clone, Debug, Eq, Hash, PartialEq)]
pub struct ModuleKey(pub String);

impl View for ModuleKey {
    type V = Seq<char>;

    open spec fn view(&self) -> Seq<char> {
        self.0@
    }
}

/// `s` with every dot replaced by a slash.
pub open spec fn dots_to_slashes(s: Seq<char>) -> Seq<char> {
    s.map_values(|c: char| if c == '.' { '/' } else { c })
}

/// Distinct module keys map to distinct module files: two keys without slashes whose paths are
/// equal are equal.
pub proof fn lemma_key_paths_distinct(a: Seq<char>, b: Seq<char>)
    requires
        !a.contains('/'),
        !b.contains('/'),
        dots_to_slashes(a) + ".spsl"@ == dots_to_slashes(b) + ".spsl"@,
    ensures
        a == b,
{
    let pa = dots_to_slashes(a) + ".spsl"@;
    let pb = dots_to_slashes(b) + ".spsl"@;
    assert(a.len() == b.len()) by {
        assert(pa.len() == pb.len());
    }
    assert forall|i: int| 0 <= i < a.len() implies a[i] == b[i] by {
        assert(pa[i] == dots_to_slashes(a)[i]);
        assert(pb[i] == dots_to_slashes(b)[i]);
        if a[i] != '.' {
            assert(a[i] != '/') by { if a[i] == '/' { assert(a.contains('/')); } }
        }
        if b[i] != '.' {
            assert(b[i] != '/') by { if b[i] == '/' { assert(b.contains('/')); } }
        }
    }
    assert(a =~= b);
}

/// Importing the module `foo.bar.zoo` reads the file `foo/bar/zoo.spsl`: the path of the key of an
/// import is its components joined by slashes, when no component holds a dot.
pub proof fn lemma_import_file(parts: Seq<Seq<char>>)
    requires
        forall|i: int| 0 <= i < parts.len() ==> !(#[trigger] parts[i]).contains('.'),
    ensures
        dots_to_slashes(seq_join(parts, seq!['.'])) == seq_join(parts, seq!['/']),
    decreases parts.len(),
{
    if parts.len() == 1 {
        let p = parts[0];
        assert(!p.contains('.'));
        assert forall|j: int| 0 <= j < p.len() implies p[j] != '.' by {
            if p[j] == '.' {
                assert(p.contains('.'));
            }
        }
        assert(dots_to_slashes(p) =~= p);
    } else if parts.len() > 1 {
        let init = parts.drop_last();
        let last = parts.last();
        assert forall|i: int| 0 <= i < init.len() implies !(#[trigger] init[i]).contains('.') by {
            assert(init[i] == parts[i]);
        }
        lemma_import_file(init);
        assert(!parts[parts.len() - 1].contains('.'));
        assert forall|j: int| 0 <= j < last.len() implies last[j] != '.' by {
            if last[j] == '.' {
                assert(last.contains('.'));
            }
        }
        assert(dots_to_slashes(last) =~= last);
        let a = seq_join(init, seq!['.']);
        assert(dots_to_slashes(a + seq!['.'] + last) =~= dots_to_slashes(a) + seq!['/'] + dots_to_slashes(last));
    } else {
        assert(dots_to_slashes(Seq::<char>::empty()) =~= Seq::<char>::empty());
    }
}

impl ModuleKey {
    /// Create a new module key. The string must contain the module in the form `foo.bar.zoo`.
    pub fn new(key: &str) -> (res: Self)
        ensures
            res@ == key@,
    {
        ModuleKey(key.to_owned())
    }

    /// The path of the file of the module, relative to the store's root: the dots of the key
    /// become directory separators and the extension `.spsl` is appended.
    pub fn key_to_path(&self) -> (res: String)
        ensures
            res@ == dots_to_slashes(self@) + ".spsl"@,
    {
        let s = self.0.as_str();
        let n = s.unicode_len();
        let mut res = String::new();
        let mut start: usize = 0;
        let mut i: usize = 0;
        proof {
            reveal_strlit("/");
        }
        while i < n
            invariant
                n == s@.len(),
                s@ == self@,
                start <= i <= n,
                res@ == dots_to_slashes(s@.take(start as int)),
                forall|j: int| start <= j < i ==> s@[j] != '.',
            decreases n - i,
        {
            if s.get_char(i) == '.' {
                let seg = s.substring_char(start, i);
                res.append(seg);
                res.append("/");
                proof {
                    reveal_strlit("/");
                    assert(dots_to_slashes(s@.take(i + 1)) =~= dots_to_slashes(s@.take(start as int)) + seg@ + "/"@);
                }
                start = i + 1;
            }
            i = i + 1;
        }
        let seg = s.substring_char(start, n);
        res.append(seg);
        res.append(".spsl");
        proof {
            assert(dots_to_slashes(s@) =~= dots_to_slashes(s@.take(start as int)) + seg@);
        }
        res
    }

    /// A copy of this key.
    pub fn duplicate(&self) -> (res: Self)
        ensures
            res@ == self@,
    {
        ModuleKey(self.0.clone())
    }
}

/// Errors that can happen in dependencies.
#[derive(Clone, Debug, PartialEq)]
pub enum DepsError {
    /// If a module's dependencies has any cycle, the dependencies are unusable and the cycle is
    /// returned, as the import that closes it: the importing module, then the module it re-enters.
    Cycle(ModuleKey, ModuleKey),
    /// There was a loading error of a module.
    LoadError(ModuleKey),
}

/// Shader module: a piece of GLSL code with optional import lists (dependencies).
#[derive(Clone, Debug, PartialEq)]
pub struct Module {
    pub imports: Vec<ImportList>,
    pub glsl: Vec<ExternalDeclaration>,
}

/// The qualifier holds the `uniform` storage qualifier.
pub open spec fn is_uniform(q: Option<SpecTypeQualifier>) -> bool {
    match q {
        Some(q) => q.qualifiers.contains(SpecTypeQualifierSpec::Storage(StorageQualifier::Uniform)),
        None => false,
    }
}

/// The declaration of the name `n` with the type `ty` and no initializer.
pub open spec fn declaration_with_type(ty: SpecFullySpecifiedType, n: SpecSingleDeclarationNoType) -> SpecSingleDeclaration {
    SpecSingleDeclaration { ty, name: Some(n.name), array_specifier: n.array_specifier, initializer: None }
}

/// The uniforms that a top-level item declares: every name of a `uniform` declaration list, each
/// with the type of the list.
pub open spec fn uniforms_in(d: SpecExternalDeclaration) -> Seq<SpecSingleDeclaration> {
    match d {
        SpecExternalDeclaration::Declaration(SpecDeclaration::InitDeclaratorList(i)) => {
            if is_uniform(i.head.ty.qualifier) {
                seq![i.head] + i.tail.map_values(|n: SpecSingleDeclarationNoType| declaration_with_type(i.head.ty, n))
            } else {
                Seq::empty()
            }
        },
        _ => Seq::empty(),
    }
}

/// A top-level declaration list declares uniforms exactly when its qualifiers hold the `uniform`
/// storage qualifier, whatever other qualifiers (layout, precision, ...) stand beside it; then
/// every name of the list is a uniform, with the type of the list.
pub proof fn lemma_uniform_lists(i: SpecInitDeclaratorList)
    ensures
        ({
            let u = uniforms_in(SpecExternalDeclaration::Declaration(SpecDeclaration::InitDeclaratorList(i)));
            let uniform = SpecTypeQualifierSpec::Storage(StorageQualifier::Uniform);
            &&& (i.head.ty.qualifier matches Some(q) && q.qualifiers.contains(uniform)) ==> {
                &&& u.len() == 1 + i.tail.len()
                &&& u[0] == i.head
                &&& forall|j: int| 0 <= j < i.tail.len() ==> {
                    &&& (#[trigger] u[j + 1]).name == Some(i.tail[j].name)
                    &&& u[j + 1].ty == i.head.ty
                    &&& u[j + 1].array_specifier == i.tail[j].array_specifier
                }
            }
            &&& !(i.head.ty.qualifier matches Some(q) && q.qualifiers.contains(uniform)) ==> u.len() == 0
        }),
{
    let u = uniforms_in(SpecExternalDeclaration::Declaration(SpecDeclaration::InitDeclaratorList(i)));
    let t = i.tail.map_values(|n: SpecSingleDeclarationNoType| declaration_with_type(i.head.ty, n));
    if is_uniform(i.head.ty.qualifier) {
        assert(u == seq![i.head] + t);
        assert forall|j: int| 0 <= j < i.tail.len() implies {
            &&& (#[trigger] u[j + 1]).name == Some(i.tail[j].name)
            &&& u[j + 1].ty == i.head.ty
            &&& u[j + 1].array_specifier == i.tail[j].array_specifier
        } by {
            assert(u[j + 1] == t[j]);
        }
    }
}

/// An element of the image of one item is in the concatenation of all images.
pub proof fn lemma_concat_map_contains<A, B>(s: Seq<A>, f: spec_fn(A) -> Seq<B>, k: int, x: B)
    requires
        0 <= k < s.len(),
        f(s[k]).contains(x),
    ensures
        concat_map(s, f).contains(x),
    decreases s.len(),
{
    let p = concat_map(s.drop_last(), f);
    assert(concat_map(s, f) == p + f(s.last()));
    if k == s.len() - 1 {
        let fk = f(s[k]);
        let j = choose|j: int| 0 <= j < fk.len() && fk[j] == x;
        assert(concat_map(s, f)[p.len() + j] == x);
    } else {
        assert(s.drop_last()[k] == s[k]);
        lemma_concat_map_contains(s.drop_last(), f, k, x);
        let j = choose|j: int| 0 <= j < p.len() && p[j] == x;
        assert(concat_map(s, f)[j] == x);
    }
}

/// Every top-level declaration list of a module whose qualifiers hold `uniform` gives its first
/// declaration to the module's uniforms, whatever other qualifiers stand beside it.
pub proof fn lemma_module_uniform_found(m: Module, k: int, i: SpecInitDeclaratorList)
    requires
        0 <= k < m.glsl@.len(),
        m.glsl@[k]@ == SpecExternalDeclaration::Declaration(SpecDeclaration::InitDeclaratorList(i)),
        i.head.ty.qualifier matches Some(q) && q.qualifiers.contains(SpecTypeQualifierSpec::Storage(StorageQualifier::Uniform)),
    ensures
        concat_map(seq_view(m.glsl@), |d: SpecExternalDeclaration| uniforms_in(d)).contains(i.head),
{
    lemma_uniform_lists(i);
    let g = |d: SpecExternalDeclaration| uniforms_in(d);
    assert(seq_view(m.glsl@)[k] == m.glsl@[k]@);
    assert(g(seq_view(m.glsl@)[k])[0] == i.head);
    lemma_concat_map_contains(seq_view(m.glsl@), g, k, i.head);
}

/// The interface block that a top-level item declares, if any.
pub open spec fn blocks_in(d: SpecExternalDeclaration) -> Seq<SpecBlock> {
    match d {
        SpecExternalDeclaration::Declaration(SpecDeclaration::Block(b)) => seq![b],
        _ => Seq::empty(),
    }
}

/// The function that a top-level item defines, if any.
pub open spec fn functions_in(d: SpecExternalDeclaration) -> Seq<SpecFunctionDefinition> {
    match d {
        SpecExternalDeclaration::FunctionDefinition(f) => seq![f],
        _ => Seq::empty(),
    }
}

/// The struct that a top-level declaration list defines in its type, if any.
pub open spec fn structs_in(d: SpecExternalDeclaration) -> Seq<SpecStructSpecifier> {
    match d {
        SpecExternalDeclaration::Declaration(SpecDeclaration::InitDeclaratorList(i)) => {
            match i.head.ty.ty.ty {
                SpecTypeSpecifierNonArray::Struct(s) => seq![s],
                _ => Seq::empty(),
            }
        },
        _ => Seq::empty(),
    }
}

/// Whether `q` holds the `uniform` storage qualifier.
fn has_uniform(q: &TypeQualifier) -> (res: bool)
    ensures
        res == q@.qualifiers.contains(SpecTypeQualifierSpec::Storage(StorageQualifier::Uniform)),
{
    let n = q.qualifiers.len();
    let mut i: usize = 0;
    while i < n
        invariant
            n == q.qualifiers@.len(),
            i <= n,
            forall|j: int| 0 <= j < i ==> q@.qualifiers[j] != SpecTypeQualifierSpec::Storage(StorageQualifier::Uniform),
        decreases n - i,
    {
        match &q.qualifiers[i] {
            TypeQualifierSpec::Storage(StorageQualifier::Uniform) => {
                assert(q@.qualifiers[i as int] == SpecTypeQualifierSpec::Storage(StorageQualifier::Uniform));
                return true;
            },
            _ => {},
        }
        i = i + 1;
    }
    false
}

/// The GLSL of the modules `d`, taken from `store` in the order of `d`.
pub open spec fn gathered_glsl(store: Map<Seq<char>, Module>, d: Seq<Seq<char>>) -> Seq<SpecExternalDeclaration>
    decreases d.len(),
{
    if d.len() == 0 {
        Seq::empty()
    } else {
        gathered_glsl(store, d.drop_last()) + seq_view(store[d.last()].glsl@)
    }
}

/// The keys of the modules that `m` imports, in the order of its import lists.
pub open spec fn import_keys(m: Module) -> Seq<Seq<char>> {
    m.imports@.map_values(|il: ImportList| path_key(il.module))
}

/// The sequence of the views of a sequence of keys.
pub open spec fn keys_of(s: Seq<ModuleKey>) -> Seq<Seq<char>> {
    s.map_values(|k: ModuleKey| k@)
}

/// The import graph seen from `key` when the module `top` stands under `key`: every stored module
/// with its imports, and `top` in place of whatever is stored under `key`.
pub open spec fn dep_graph(store: Map<Seq<char>, Module>, key: Seq<char>, top: Module) -> Graph {
    Map::new(
        |k: Seq<char>| store.contains_key(k) || k == key,
        |k: Seq<char>| if k == key { import_keys(top) } else { import_keys(store[k]) },
    )
}

/// `d` lists exactly the modules reachable from `r`, each once, every module after the modules
/// that it imports.
pub open spec fn deps_of(g: Graph, r: Seq<char>, d: Seq<Seq<char>>) -> bool {
    &&& d.no_duplicates()
    &&& forall|x: Seq<char>| d.contains(x) <==> reaches(g, r, x)
    &&& dependency_order(g, d)
}

/// The dependencies of a module are determined by the import graph, up to their order: two lists
/// that both list them hold the same modules, as many of them.
pub proof fn lemma_deps_determined(g: Graph, r: Seq<char>, d1: Seq<Seq<char>>, d2: Seq<Seq<char>>)
    requires
        deps_of(g, r, d1),
        deps_of(g, r, d2),
    ensures
        d1.to_set() == d2.to_set(),
        d1.len() == d2.len(),
{
    assert(d1.to_set() =~= d2.to_set()) by {
        assert forall|x: Seq<char>| d1.to_set().contains(x) <==> d2.to_set().contains(x) by {
            assert(d1.contains(x) <==> reaches(g, r, x));
            assert(d2.contains(x) <==> reaches(g, r, x));
        }
    }
    d1.unique_seq_to_set();
    d2.unique_seq_to_set();
}

/// Whether `v` holds a key equal to `k`.
fn contains_key(v: &Vec<ModuleKey>, k: &ModuleKey) -> (res: bool)
    ensures
        res == keys_of(v@).contains(k@),
{
    let n = v.len();
    let mut i: usize = 0;
    while i < n
        invariant
            n == v@.len(),
            i <= n,
            forall|j: int| 0 <= j < i ==> v@[j]@ != k@,
        decreases n - i,
    {
        if v[i].0 == k.0 {
            assert(keys_of(v@)[i as int] == k@);
            return true;
        }
        i = i + 1;
    }
    proof {
        if keys_of(v@).contains(k@) {
            let j = choose|j: int| 0 <= j < keys_of(v@).len() && keys_of(v@)[j] == k@;
            assert(v@[j]@ == k@);
        }
    }
    false
}

impl Module {
    /// Retrieve all the modules this module depends on, without duplicates.
    ///
    /// `key` names this module. A module that is imported is looked up in `store`.
    pub fn deps(&self, store: &ModuleStore, key: &ModuleKey) -> (res: Result<Vec<ModuleKey>, DepsError>)
        ensures
            ({
                let g = dep_graph(store@, key@, *self);
                &&& match res {
                    Ok(d) => deps_of(g, key@, keys_of(d@)) && dfs_deps(g, key@) == DepsOutcome::Done(keys_of(d@)),
                    Err(DepsError::Cycle(a, b)) => closes_cycle(g, a@, b@) && revisits(g, key@, b@) && dfs_deps(g, key@) == DepsOutcome::Cycle(a@, b@),
                    Err(DepsError::LoadError(k)) => misses(g, key@, k@) && dfs_deps(g, key@) == DepsOutcome::Missing(k@),
                }
                &&& res is Ok <==> (loaded_from(g, key@) && acyclic_from(g, key@))
            }),
    {
        let ghost g = dep_graph(store@, key@, *self);
        let mut deps: Vec<ModuleKey> = Vec::new();
        let mut parents: Vec<ModuleKey> = Vec::new();
        proof {
            assert(keys_of(parents@).push(key@) =~= seq![key@]);
            assert(keys_of(deps@) =~= Seq::<Seq<char>>::empty());
            use_type_invariant(store);
            store.lemma_dom_bounded();
            assert(g.dom() =~= store@.dom().insert(key@));
        }
        match self.deps_no_cycle(store, key, &mut parents, &mut deps, Ghost(g), Ghost(key@)) {
            Ok(()) => {
                proof {
                    let d = keys_of(deps@);
                    assert(keys_of(parents@).contains(key@)) by {
                        assert(keys_of(parents@)[0] == key@);
                    }
                    lemma_complete_order(g, key@, d);
                }
                Ok(deps)
            },
            Err(e) => {
                proof {
                    match e {
                        DepsError::Cycle(ref a, ref b) => {
                            let p = choose|p: Seq<Seq<char>>| #[trigger] path_from(g, key@, p) && p.last() == b@ && p.drop_last().contains(b@);
                            let j = choose|j: int| 0 <= j < p.drop_last().len() && p.drop_last()[j] == b@;
                            assert(p[j] == p[p.len() - 1]);
                        },
                        DepsError::LoadError(ref k) => {
                            let p = choose|p: Seq<Seq<char>>| #[trigger] path_from(g, key@, p) && p.last() == k@ && !g.contains_key(k@);
                        },
                    }
                }
                Err(e)
            },
        }
    }

    /// Get all the uniforms defined in a module.
    pub fn uniforms(&self) -> (res: Vec<SingleDeclaration>)
        ensures
            seq_view(res@) == concat_map(seq_view(self.glsl@), |d: SpecExternalDeclaration| uniforms_in(d)),
    {
        let ghost f = |d: SpecExternalDeclaration| uniforms_in(d);
        let mut uniforms: Vec<SingleDeclaration> = Vec::new();
        let n = self.glsl.len();
        let mut i: usize = 0;
        while i < n
            invariant
                n == self.glsl@.len(),
                i <= n,
                seq_view(uniforms@) == concat_map(seq_view(self.glsl@).take(i as int), f),
            f == (|d: SpecExternalDeclaration| uniforms_in(d)),
            decreases n - i,
        {
            let ghost before = uniforms@;
            let ghost d = self.glsl@[i as int]@;
            if let ExternalDeclaration::Declaration(Declaration::InitDeclaratorList(l)) = &self.glsl[i] {
                if let Some(q) = &l.head.ty.qualifier {
                    if has_uniform(q) {
                        uniforms.push(l.head.duplicate());
                        let m = l.tail.len();
                        let mut j: usize = 0;
                        while j < m
                            invariant
                                m == l.tail@.len(),
                                j <= m,
                                uniforms@.len() == before.len() + 1 + j,
                                uniforms@.take(before.len() as int) == before,
                                uniforms@[before.len() as int]@ == l.head@,
                                forall|t: int| 0 <= t < j ==> #[trigger] uniforms@[before.len() + 1 + t]@ == declaration_with_type(l.head.ty@, l.tail@[t]@),
                            decreases m - j,
                        {
                            let next = &l.tail[j];
                            uniforms.push(SingleDeclaration {
                                ty: l.head.ty.duplicate(),
                                name: Some(next.name.clone()),
                                array_specifier: crate::duplicate::duplicate_opt(&next.array_specifier),
                                initializer: None,
                            });
                            assert(uniforms@.take(before.len() as int) =~= before);
                            j = j + 1;
                        }
                        proof {
                            assert(seq_view(uniforms@) =~= seq_view(before) + uniforms_in(d)) by {
                                assert forall|t: int| 0 <= t < uniforms@.len() implies seq_view(uniforms@)[t] == (seq_view(before) + uniforms_in(d))[t] by {
                                    if t < before.len() {
                                        assert(uniforms@.take(before.len() as int)[t] == uniforms@[t]);
                                    } else if t > before.len() {
                                        let u = t - before.len() - 1;
                                        assert(uniforms@[before.len() + 1 + u]@ == declaration_with_type(l.head.ty@, l.tail@[u]@));
                                    }
                                }
                            }
                        }
                    }
                }
            }
            proof {
                lemma_concat_map_push(seq_view(self.glsl@).take(i as int), d, f);
                assert(seq_view(self.glsl@)[i as int] == d);
                assert(seq_view(self.glsl@).take(i + 1) =~= seq_view(self.glsl@).take(i as int).push(d));
                assert(f(d) == uniforms_in(d));
                if uniforms@.len() == before.len() {
                    assert(uniforms@ == before);
                    assert(uniforms_in(d) =~= Seq::<SpecSingleDeclaration>::empty());
                    assert(seq_view(uniforms@) =~= seq_view(before) + uniforms_in(d));
                }
            }
            i = i + 1;
        }
        proof {
            assert(seq_view(self.glsl@).take(n as int) =~= seq_view(self.glsl@));
        }
        uniforms
    }

    /// Get all the blocks defined in a module.
    pub fn blocks(&self) -> (res: Vec<Block>)
        ensures
            seq_view(res@) == concat_map(seq_view(self.glsl@), |d: SpecExternalDeclaration| blocks_in(d)),
    {
        let ghost f = |d: SpecExternalDeclaration| blocks_in(d);
        let mut res: Vec<Block> = Vec::new();
        let n = self.glsl.len();
        let mut i: usize = 0;
        while i < n
            invariant
                n == self.glsl@.len(),
                i <= n,
                seq_view(res@) == concat_map(seq_view(self.glsl@).take(i as int), f),
            f == (|d: SpecExternalDeclaration| blocks_in(d)),
            decreases n - i,
        {
            let ghost before = res@;
            let ghost d = self.glsl@[i as int]@;
            if let ExternalDeclaration::Declaration(Declaration::Block(b)) = &self.glsl[i] {
                res.push(b.duplicate());
                assert(seq_view(res@) =~= seq_view(before) + blocks_in(d));
            } else {
                assert(seq_view(res@) =~= seq_view(before) + blocks_in(d));
            }
            proof {
                lemma_concat_map_push(seq_view(self.glsl@).take(i as int), d, f);
                assert(seq_view(self.glsl@)[i as int] == d);
                assert(seq_view(self.glsl@).take(i + 1) =~= seq_view(self.glsl@).take(i as int).push(d));
                assert(f(d) == blocks_in(d));
            }
            i = i + 1;
        }
        proof {
            assert(seq_view(self.glsl@).take(n as int) =~= seq_view(self.glsl@));
        }
        res
    }

    /// Get all the functions.
    pub fn functions(&self) -> (res: Vec<FunctionDefinition>)
        ensures
            seq_view(res@) == concat_map(seq_view(self.glsl@), |d: SpecExternalDeclaration| functions_in(d)),
    {
        let ghost f = |d: SpecExternalDeclaration| functions_in(d);
        let mut res: Vec<FunctionDefinition> = Vec::new();
        let n = self.glsl.len();
        let mut i: usize = 0;
        while i < n
            invariant
                n == self.glsl@.len(),
                i <= n,
                seq_view(res@) == concat_map(seq_view(self.glsl@).take(i as int), f),
            f == (|d: SpecExternalDeclaration| functions_in(d)),
            decreases n - i,
        {
            let ghost before = res@;
            let ghost d = self.glsl@[i as int]@;
            if let ExternalDeclaration::FunctionDefinition(def) = &self.glsl[i] {
                res.push(def.duplicate());
                assert(seq_view(res@) =~= seq_view(before) + functions_in(d));
            } else {
                assert(seq_view(res@) =~= seq_view(before) + functions_in(d));
            }
            proof {
                lemma_concat_map_push(seq_view(self.glsl@).take(i as int), d, f);
                assert(seq_view(self.glsl@)[i as int] == d);
                assert(seq_view(self.glsl@).take(i + 1) =~= seq_view(self.glsl@).take(i as int).push(d));
                assert(f(d) == functions_in(d));
            }
            i = i + 1;
        }
        proof {
            assert(seq_view(self.glsl@).take(n as int) =~= seq_view(self.glsl@));
        }
        res
    }

    /// Get all the declared structures.
    pub fn structs(&self) -> (res: Vec<StructSpecifier>)
        ensures
            seq_view(res@) == concat_map(seq_view(self.glsl@), |d: SpecExternalDeclaration| structs_in(d)),
    {
        let ghost f = |d: SpecExternalDeclaration| structs_in(d);
        let mut res: Vec<StructSpecifier> = Vec::new();
        let n = self.glsl.len();
        let mut i: usize = 0;
        while i < n
            invariant
                n == self.glsl@.len(),
                i <= n,
                seq_view(res@) == concat_map(seq_view(self.glsl@).take(i as int), f),
            f == (|d: SpecExternalDeclaration| structs_in(d)),
            decreases n - i,
        {
            let ghost before = res@;
            let ghost d = self.glsl@[i as int]@;
            let mut found = false;
            if let ExternalDeclaration::Declaration(Declaration::InitDeclaratorList(l)) = &self.glsl[i] {
                if let TypeSpecifierNonArray::Struct(s) = &l.head.ty.ty.ty {
                    res.push(s.duplicate());
                    found = true;
                    assert(seq_view(res@) =~= seq_view(before) + structs_in(d));
                }
            }
            if !found {
                assert(seq_view(res@) =~= seq_view(before) + structs_in(d));
            }
            proof {
                lemma_concat_map_push(seq_view(self.glsl@).take(i as int), d, f);
                assert(seq_view(self.glsl@)[i as int] == d);
                assert(seq_view(self.glsl@).take(i + 1) =~= seq_view(self.glsl@).take(i as int).push(d));
                assert(f(d) == structs_in(d));
            }
            i = i + 1;
        }
        proof {
            assert(seq_view(self.glsl@).take(n as int) =~= seq_view(self.glsl@));
        }
        res
    }

    /// Fold a module and its dependencies into a single module. The list of dependencies is also
    /// returned.
    pub fn gather(&self, store: &ModuleStore, key: &ModuleKey) -> (res: Result<(Module, Vec<ModuleKey>), DepsError>)
        ensures
            ({
                let g = dep_graph(store@, key@, *self);
                &&& match res {
                    Ok((m, d)) => {
                        &&& deps_of(g, key@, keys_of(d@))
                        &&& dfs_deps(g, key@) == DepsOutcome::Done(keys_of(d@))
                        &&& m.imports@.len() == 0
                        &&& seq_view(m.glsl@) == gathered_glsl(store@, keys_of(d@)) + seq_view(self.glsl@)
                    },
                    Err(DepsError::Cycle(a, b)) => closes_cycle(g, a@, b@) && revisits(g, key@, b@) && dfs_deps(g, key@) == DepsOutcome::Cycle(a@, b@),
                    Err(DepsError::LoadError(k)) => misses(g, key@, k@) && dfs_deps(g, key@) == DepsOutcome::Missing(k@),
                }
                &&& res is Ok <==> (loaded_from(g, key@) && acyclic_from(g, key@))
            }),
    {
        let ghost g = dep_graph(store@, key@, *self);
        let deps = match self.deps(store, key) {
            Ok(d) => d,
            Err(e) => {
                return Err(e);
            },
        };
        let ghost d = keys_of(deps@);
        proof {
            if d.contains(key@) {
                let p = choose|p: Seq<Seq<char>>| #[trigger] path_from(g, key@, p) && p.len() >= 2 && p.last() == key@;
                assert(p[0] == p[p.len() - 1]);
            }
        }
        let mut glsl: Vec<ExternalDeclaration> = Vec::new();
        let n = deps.len();
        let mut i: usize = 0;
        while i < n
            invariant
                n == deps@.len(),
                i <= n,
                d == keys_of(deps@),
                g == dep_graph(store@, key@, *self),
                dependency_order(g, d),
                !d.contains(key@),
                seq_view(glsl@) == gathered_glsl(store@, d.take(i as int)),
            decreases n - i,
        {
            proof {
                assert(g.contains_key(d[i as int]));
                assert(d[i as int] != key@);
                assert(store@.contains_key(deps@[i as int]@));
            }
            let m = store.get(&deps[i]).unwrap();
            let ghost before = glsl@;
            let k = m.glsl.len();
            let mut j: usize = 0;
            while j < k
                invariant
                    k == m.glsl@.len(),
                    j <= k,
                    glsl@.len() == before.len() + j,
                    glsl@.take(before.len() as int) == before,
                    forall|t: int| 0 <= t < j ==> #[trigger] glsl@[before.len() + t]@ == m.glsl@[t]@,
                decreases k - j,
            {
                glsl.push(m.glsl[j].duplicate());
                assert(glsl@.take(before.len() as int) =~= before);
                j = j + 1;
            }
            proof {
                assert(seq_view(glsl@) =~= seq_view(before) + seq_view(m.glsl@)) by {
                    assert forall|t: int| 0 <= t < glsl@.len() implies seq_view(glsl@)[t] == (seq_view(before) + seq_view(m.glsl@))[t] by {
                        if t < before.len() {
                            assert(glsl@.take(before.len() as int)[t] == glsl@[t]);
                        } else {
                            let u = t - before.len();
                            assert(glsl@[before.len() + u]@ == m.glsl@[u]@);
                        }
                    }
                }
                assert(d.take(i + 1).drop_last() =~= d.take(i as int));
                assert(d.take(i + 1).last() == deps@[i as int]@);
            }
            i = i + 1;
        }
        let ghost before = glsl@;
        let k = self.glsl.len();
        let mut j: usize = 0;
        while j < k
            invariant
                k == self.glsl@.len(),
                j <= k,
                glsl@.len() == before.len() + j,
                glsl@.take(before.len() as int) == before,
                forall|t: int| 0 <= t < j ==> #[trigger] glsl@[before.len() + t]@ == self.glsl@[t]@,
            decreases k - j,
        {
            glsl.push(self.glsl[j].duplicate());
            assert(glsl@.take(before.len() as int) =~= before);
            j = j + 1;
        }
        proof {
            assert(seq_view(glsl@) =~= seq_view(before) + seq_view(self.glsl@)) by {
                assert forall|t: int| 0 <= t < glsl@.len() implies seq_view(glsl@)[t] == (seq_view(before) + seq_view(self.glsl@))[t] by {
                    if t < before.len() {
                        assert(glsl@.take(before.len() as int)[t] == glsl@[t]);
                    } else {
                        let u = t - before.len();
                        assert(glsl@[before.len() + u]@ == self.glsl@[u]@);
                    }
                }
            }
            assert(d.take(n as int) =~= d);
        }
        let module = Module { imports: Vec::new(), glsl };
        Ok((module, deps))
    }

    fn deps_no_cycle(
        &self,
        store: &ModuleStore,
        key: &ModuleKey,
        parents: &mut Vec<ModuleKey>,
        deps: &mut Vec<ModuleKey>,
        Ghost(g): Ghost<Graph>,
        Ghost(r): Ghost<Seq<char>>,
    ) -> (res: Result<(), DepsError>)
        requires
            forall|k: Seq<char>| #[trigger] g.contains_key(k) ==> store@.contains_key(k) || k == r,
            forall|k: Seq<char>| #[trigger] store@.contains_key(k) && k != r ==> g.contains_key(k) && g[k] == import_keys(store@[k]),
            g.contains_key(key@),
            g[key@] == import_keys(*self),
            path_from(g, r, keys_of(old(parents)@).push(key@)),
            keys_of(old(parents)@).push(key@).no_duplicates(),
            keys_of(old(deps)@).no_duplicates(),
            forall|x: Seq<char>| keys_of(old(deps)@).contains(x) ==> !keys_of(old(parents)@).push(key@).contains(x),
            dependency_order(g, keys_of(old(deps)@)),
            forall|i: int| 0 <= i < old(deps)@.len() ==> reaches(g, r, #[trigger] keys_of(old(deps)@)[i]),
            g.dom().finite(),
        ensures
            ({
                let outcome = visit(
                    g,
                    (g.dom().len() - old(parents)@.len() - 1) as nat,
                    g[key@],
                    keys_of(old(parents)@).push(key@),
                    keys_of(old(deps)@),
                );
                match res {
                    Ok(()) => outcome == DepsOutcome::Done(keys_of(final(deps)@)),
                    Err(DepsError::Cycle(a, b)) => outcome == DepsOutcome::Cycle(a@, b@),
                    Err(DepsError::LoadError(k)) => outcome == DepsOutcome::Missing(k@),
                }
            }),
            match res {
                Ok(()) => {
                    &&& keys_of(final(parents)@) == keys_of(old(parents)@).push(key@)
                    &&& old(deps)@.len() <= final(deps)@.len()
                    &&& keys_of(final(deps)@).take(old(deps)@.len() as int) == keys_of(old(deps)@)
                    &&& keys_of(final(deps)@).no_duplicates()
                    &&& forall|x: Seq<char>| keys_of(final(deps)@).contains(x) ==> !keys_of(final(parents)@).contains(x)
                    &&& dependency_order(g, keys_of(final(deps)@))
                    &&& forall|i: int| 0 <= i < final(deps)@.len() ==> reaches(g, r, #[trigger] keys_of(final(deps)@)[i])
                    &&& forall|x: Seq<char>| #[trigger] g[key@].contains(x) ==> keys_of(final(deps)@).contains(x)
                },
                Err(DepsError::Cycle(a, b)) => closes_cycle(g, a@, b@) && revisits(g, r, b@),
                Err(DepsError::LoadError(k)) => misses(g, r, k@),
            },
        decreases store.spec_len() + 1 - parents@.len(),
    {
        proof {
            use_type_invariant(store);
            store.lemma_dom_bounded();
            let pp = keys_of(parents@).push(key@);
            let set = store@.dom().insert(r);
            assert forall|i: int| 0 <= i < pp.len() implies set.contains(#[trigger] pp[i]) by {
                if i < pp.len() - 1 {
                    assert(edge_at(g, pp, i));
                }
            }
            lemma_distinct_bounded(pp, set);
            assert(set.len() <= store@.dom().len() + 1);
            assert forall|i: int| 0 <= i < pp.len() implies g.dom().contains(#[trigger] pp[i]) by {
                if i < pp.len() - 1 {
                    assert(edge_at(g, pp, i));
                }
            }
            lemma_distinct_bounded(pp, g.dom());
        }
        let ghost p0 = keys_of(parents@);
        let ghost fuel = (g.dom().len() - p0.len() - 1) as nat;
        let ghost imports = g[key@];
        let ghost whole = visit(g, fuel, imports, p0.push(key@), keys_of(deps@));
        assert(imports.skip(0) =~= imports);
        let ghost d0 = keys_of(deps@);
        assert(p0.len() == parents@.len());
        parents.push(key.duplicate());
        assert(keys_of(parents@) =~= p0.push(key@));
        let n = self.imports.len();
        let mut i: usize = 0;
        while i < n
            invariant
                n == self.imports@.len(),
                i <= n,
                forall|k: Seq<char>| #[trigger] g.contains_key(k) ==> store@.contains_key(k) || k == r,
                forall|k: Seq<char>| #[trigger] store@.contains_key(k) && k != r ==> g.contains_key(k) && g[k] == import_keys(store@[k]),
                g.contains_key(key@),
                g[key@] == import_keys(*self),
                keys_of(parents@) == p0.push(key@),
                path_from(g, r, p0.push(key@)),
                p0.push(key@).no_duplicates(),
                parents@.len() == p0.len() + 1,
                p0.len() == old(parents)@.len(),
                store.spec_len() + 1 - p0.len() >= 1,
                d0.len() <= deps@.len(),
                keys_of(deps@).take(d0.len() as int) == d0,
                keys_of(deps@).no_duplicates(),
                forall|x: Seq<char>| keys_of(deps@).contains(x) ==> !keys_of(parents@).contains(x),
                dependency_order(g, keys_of(deps@)),
                forall|j: int| 0 <= j < deps@.len() ==> reaches(g, r, #[trigger] keys_of(deps@)[j]),
                forall|j: int| 0 <= j < i ==> keys_of(deps@).contains(#[trigger] import_keys(*self)[j]),
                g.dom().finite(),
                p0.len() + 1 <= g.dom().len(),
                fuel == (g.dom().len() - p0.len() - 1) as nat,
                imports == g[key@],
                imports.len() == n,
                whole == visit(g, fuel, imports.skip(i as int), p0.push(key@), keys_of(deps@)),
                p0 == keys_of(old(parents)@),
                whole == visit(
                    g,
                    (g.dom().len() - old(parents)@.len() - 1) as nat,
                    g[key@],
                    keys_of(old(parents)@).push(key@),
                    keys_of(old(deps)@),
                ),
            decreases n - i,
        {
            let module_key = ModuleKey(join_path(&self.imports[i].module));
            let ghost mk = module_key@;
            assert(mk == import_keys(*self)[i as int]);
            assert(g[key@].contains(mk));
            let ghost pp = keys_of(parents@);
            let ghost walk = pp.push(mk);
            let ghost nodes = imports.skip(i as int);
            proof {
                assert(nodes[0] == mk);
                assert(nodes.drop_first() =~= imports.skip(i + 1));
            }
            proof {
                assert(is_path(g, walk)) by {
                    assert forall|j: int| 0 <= j < walk.len() - 1 implies #[trigger] edge_at(g, walk, j) by {
                        if j < walk.len() - 2 {
                            assert(edge_at(g, pp, j));
                        } else {
                            assert(walk[j] == key@);
                        }
                    }
                }
                assert(walk[0] == r);
                assert(path_from(g, r, walk));
                assert(walk.last() == mk);
            }
            if contains_key(deps, &module_key) {
                assert(whole == visit(g, fuel, imports.skip(i + 1), p0.push(key@), keys_of(deps@)));
                i = i + 1;
                continue;
            }
            if contains_key(parents, &module_key) {
                proof {
                    assert(walk.drop_last() =~= pp);
                    assert(walk.drop_last().contains(mk));
                    assert(revisits(g, r, mk));
                    assert(p0.push(key@).last() == key@);
                    assert(whole == DepsOutcome::Cycle(key@, mk));
                    lemma_closes_cycle(g, r, pp, mk);
                }
                return Err(DepsError::Cycle(key.duplicate(), module_key));
            }
            let module = match store.get(&module_key) {
                Some(m) => m,
                None => {
                    proof {
                        assert(pp[0] == r);
                        assert(mk != r);
                        assert(!g.contains_key(mk));
                        assert(misses(g, r, mk));
                        assert(whole == DepsOutcome::Missing(mk));
                    }
                    return Err(DepsError::LoadError(module_key));
                },
            };
            proof {
                assert(pp[0] == r);
                assert(mk != r);
                assert(walk.no_duplicates()) by {
                    assert forall|a: int, b: int| 0 <= a < b < walk.len() implies walk[a] != walk[b] by {
                        if b == walk.len() - 1 {
                            assert(pp.contains(pp[a]));
                        }
                    }
                }
                assert(keys_of(parents@).push(mk) == walk);
                assert forall|t: int| 0 <= t < walk.len() implies g.dom().contains(#[trigger] walk[t]) by {
                    if t < walk.len() - 1 {
                        assert(edge_at(g, walk, t));
                    }
                }
                lemma_distinct_bounded(walk, g.dom());
                assert(fuel > 0);
            }
            let ghost dd = keys_of(deps@);
            match module.deps_no_cycle(store, &module_key, parents, deps, Ghost(g), Ghost(r)) {
                Ok(()) => {},
                Err(e) => {
                    return Err(e);
                },
            }
            let ghost d1 = keys_of(deps@);
            assert(visit(g, (fuel - 1) as nat, g[mk], pp.push(mk), dd) == DepsOutcome::Done(d1));
            deps.push(module_key.duplicate());
            let ghost d2 = keys_of(deps@);
            proof {
                assert(d2 =~= d1.push(mk));
                assert(d2.take(d0.len() as int) =~= d0) by {
                    assert(d1.take(dd.len() as int) == dd);
                    assert(dd.take(d0.len() as int) == d0);
                    assert forall|j: int| 0 <= j < d0.len() implies d2[j] == d0[j] by {
                        assert(d2[j] == d1[j]);
                        assert(d1[j] == d1.take(dd.len() as int)[j]);
                        assert(dd[j] == dd.take(d0.len() as int)[j]);
                    }
                }
                assert(!d1.contains(mk)) by {
                    assert(keys_of(parents@) == walk);
                    assert(walk.contains(mk)) by { assert(walk[walk.len() - 1] == mk); }
                }
                assert(d2.no_duplicates()) by {
                    assert forall|a: int, b: int| 0 <= a < b < d2.len() implies d2[a] != d2[b] by {
                        if b == d2.len() - 1 {
                            assert(d1.contains(d1[a]));
                        } else {
                            assert(d1[a] != d1[b]);
                        }
                    }
                }
                assert(dependency_order(g, d2)) by {
                    assert forall|j: int| 0 <= j < d2.len() implies {
                        &&& g.contains_key(#[trigger] d2[j])
                        &&& forall|x: Seq<char>| #[trigger] g[d2[j]].contains(x) ==> occurs_before(d2, j, x)
                    } by {
                        if j < d1.len() {
                            assert(d2[j] == d1[j]);
                            assert forall|x: Seq<char>| #[trigger] g[d2[j]].contains(x) implies occurs_before(d2, j, x) by {
                                assert(occurs_before(d1, j, x));
                                let jj = choose|jj: int| 0 <= jj < j && #[trigger] d1[jj] == x;
                                assert(d2[jj] == x);
                            }
                        } else {
                            assert(d2[j] == mk);
                            assert forall|x: Seq<char>| #[trigger] g[d2[j]].contains(x) implies occurs_before(d2, j, x) by {
                                assert(d1.contains(x));
                                let jj = choose|jj: int| 0 <= jj < d1.len() && d1[jj] == x;
                                assert(d2[jj] == x);
                            }
                        }
                    }
                }
                assert(reaches(g, r, mk)) by {
                    assert(path_from(g, r, walk));
                    assert(walk.len() >= 2);
                }
                assert forall|j: int| 0 <= j < d2.len() implies reaches(g, r, #[trigger] d2[j]) by {
                    if j < d1.len() {
                        assert(d2[j] == d1[j]);
                    }
                }
            }
            let ghost before = parents@;
            parents.pop();
            proof {
                assert(keys_of(before) == walk);
                assert(parents@ =~= before.drop_last());
                assert(keys_of(parents@) =~= keys_of(before).drop_last());
                assert(walk.drop_last() =~= pp);
                assert(keys_of(parents@) =~= pp);
                assert(whole == visit(g, fuel, imports.skip(i + 1), p0.push(key@), d2));
                assert forall|x: Seq<char>| d2.contains(x) implies !pp.contains(x) by {
                    let j = choose|j: int| 0 <= j < d2.len() && d2[j] == x;
                    if j < d1.len() {
                        assert(d1.contains(x));
                        assert(!walk.contains(x));
                        if pp.contains(x) {
                            let a = choose|a: int| 0 <= a < pp.len() && pp[a] == x;
                            assert(walk[a] == x);
                        }
                    } else {
                        assert(x == mk);
                    }
                }
                assert forall|j: int| 0 <= j <= i implies keys_of(deps@).contains(#[trigger] import_keys(*self)[j]) by {
                    if j < i {
                        assert(d1.contains(import_keys(*self)[j]));
                        let a = choose|a: int| 0 <= a < d1.len() && d1[a] == import_keys(*self)[j];
                        assert(d2[a] == d1[a]);
                    } else {
                        assert(d2[d2.len() - 1] == mk);
                    }
                }
            }
            i = i + 1;
        }
        proof {
            assert forall|x: Seq<char>| #[trigger] g[key@].contains(x) implies keys_of(deps@).contains(x) by {
                let j = choose|j: int| 0 <= j < import_keys(*self).len() && import_keys(*self)[j] == x;
                assert(keys_of(deps@).contains(import_keys(*self)[j]));
            }
            assert(imports.skip(n as int) =~= Seq::<Seq<char>>::empty());
        }
        Ok(())
    }
}

/// The modules that were loaded, each under its key.
pub struct ModuleStore {
    entries: Vec<(ModuleKey, Module)>,
}

impl ModuleStore {
    /// The keys of the stored modules, in storage order.
    pub closed spec fn keys(&self) -> Seq<Seq<char>> {
        self.entries@.map_values(|e: (ModuleKey, Module)| e.0@)
    }

    #[verifier::type_invariant]
    closed spec fn inv(&self) -> bool {
        self.keys().no_duplicates()
    }

    /// The number of stored modules.
    pub closed spec fn spec_len(&self) -> nat {
        self.entries@.len()
    }

    /// An empty store.
    pub fn new() -> (res: Self)
        ensures
            res@ == Map::<Seq<char>, Module>::empty(),
    {
        let res = ModuleStore { entries: Vec::new() };
        assert(res@ =~= Map::<Seq<char>, Module>::empty());
        res
    }

    /// Index of `k` in the store, if it is there.
    fn find(&self, k: &ModuleKey) -> (res: Option<usize>)
        ensures
            match res {
                Some(i) => i < self.entries@.len() && self.entries@[i as int].0@ == k@,
                None => !self.keys().contains(k@),
            },
    {
        let n = self.entries.len();
        let mut i: usize = 0;
        while i < n
            invariant
                n == self.entries@.len(),
                i <= n,
                forall|j: int| 0 <= j < i ==> self.entries@[j].0@ != k@,
            decreases n - i,
        {
            if self.entries[i].0.0 == k.0 {
                return Some(i);
            }
            i = i + 1;
        }
        proof {
            if self.keys().contains(k@) {
                let j = choose|j: int| 0 <= j < self.keys().len() && self.keys()[j] == k@;
                assert(self.entries@[j].0@ == k@);
            }
        }
        None
    }

    /// The module stored under `key`, if any.
    pub fn get(&self, key: &ModuleKey) -> (res: Option<&Module>)
        ensures
            match res {
                Some(m) => self@.contains_key(key@) && *m == self@[key@],
                None => !self@.contains_key(key@),
            },
    {
        proof {
            use_type_invariant(self);
        }
        match self.find(key) {
            Some(i) => {
                proof {
                    self.lemma_index_of_key(i as int);
                }
                Some(&self.entries[i].1)
            },
            None => None,
        }
    }

    /// Stores `module` under `key`, in place of any module stored there before.
    pub fn insert(&mut self, key: ModuleKey, module: Module)
        ensures
            final(self)@ == old(self)@.insert(key@, module),
    {
        proof {
            use_type_invariant(&*self);
        }
        let ghost old_keys = self.keys();
        let ghost old_map = self@;
        let found = self.find(&key);
        let mut entries: Vec<(ModuleKey, Module)> = Vec::new();
        std::mem::swap(&mut entries, &mut self.entries);
        let ghost k = key@;
        let ghost md = module;
        match found {
            Some(i) => {
                entries.set(i, (key, module));
            },
            None => {
                entries.push((key, module));
            },
        }
        let ghost new_keys = entries@.map_values(|e: (ModuleKey, Module)| e.0@);
        proof {
            match found {
                Some(i) => {
                    assert(new_keys =~= old_keys.update(i as int, k));
                    assert forall|a: int, b: int| 0 <= a < b < new_keys.len() implies new_keys[a] != new_keys[b] by {
                        if a != i && b != i {
                            assert(old_keys[a] != old_keys[b]);
                        } else if a == i {
                            assert(old_keys[i as int] == k);
                            assert(old_keys[b] != old_keys[i as int]);
                        } else {
                            assert(old_keys[i as int] == k);
                            assert(old_keys[a] != old_keys[i as int]);
                        }
                    }
                },
                None => {
                    assert(new_keys =~= old_keys.push(k));
                    assert forall|a: int, b: int| 0 <= a < b < new_keys.len() implies new_keys[a] != new_keys[b] by {
                        if b == old_keys.len() {
                            assert(old_keys.contains(old_keys[a]));
                        }
                    }
                },
            }
        }
        self.entries = entries;
        proof {
            let m = self@;
            assert(self.keys() =~= new_keys);
            assert(forall|x: Seq<char>| #[trigger] old_map.contains_key(x) == old_keys.contains(x));
            match found {
                Some(i) => {
                    assert(new_keys =~= old_keys);
                    assert(old_keys[i as int] == k);
                    assert(old_keys.contains(k));
                },
                None => {
                    assert forall|x: Seq<char>| new_keys.contains(x) <==> (old_keys.contains(x) || x == k) by {
                        if new_keys.contains(x) {
                            let j = choose|j: int| 0 <= j < new_keys.len() && new_keys[j] == x;
                            if j < old_keys.len() {
                                assert(old_keys[j] == x);
                            }
                        }
                        if old_keys.contains(x) {
                            let j = choose|j: int| 0 <= j < old_keys.len() && old_keys[j] == x;
                            assert(new_keys[j] == x);
                        }
                        if x == k {
                            assert(new_keys[old_keys.len() as int] == k);
                        }
                    }
                },
            }
            assert(forall|x: Seq<char>| #[trigger] m.contains_key(x) == new_keys.contains(x));
            assert forall|x: Seq<char>| #[trigger] m.contains_key(x) implies m[x] == old_map.insert(k, md)[x] by {
                let j = choose|j: int| 0 <= j < new_keys.len() && new_keys[j] == x;
                self.lemma_index_of_key(j);
                if x == k {
                    match found {
                        Some(i) => { assert(new_keys[i as int] == k); },
                        None => { assert(new_keys[old_keys.len() as int] == k); },
                    }
                } else {
                    assert(old_keys[j] == x);
                    assert(old_keys.contains(x));
                    let jj = choose|jj: int| 0 <= jj < old_keys.len() && old_keys[jj] == x;
                    assert(jj == j);
                }
            }
            assert forall|x: Seq<char>| m.contains_key(x) <==> old_map.insert(k, md).contains_key(x) by {
                assert(m.contains_key(x) == new_keys.contains(x));
                assert(old_map.contains_key(x) == old_keys.contains(x));
            }
            assert(m =~= old_map.insert(k, md));
        }
    }

    /// The stored keys form a finite set no larger than the number of stored modules.
    pub proof fn lemma_dom_bounded(&self)
        ensures
            self@.dom().finite(),
            self@.dom().len() <= self.spec_len(),
    {
        assert(self@.dom() =~= self.keys().to_set());
        self.keys().lemma_cardinality_of_set();
    }

    proof fn lemma_index_of_key(&self, i: int)
        requires
            self.inv(),
            0 <= i < self.entries@.len(),
        ensures
            self@.contains_key(self.entries@[i].0@),
            self@[self.entries@[i].0@] == self.entries@[i].1,
    {
        let k = self.entries@[i].0@;
        assert(self.keys()[i] == k);
        let j = choose|j: int| 0 <= j < self.keys().len() && self.keys()[j] == k;
        assert(j == i);
    }
}

impl View for ModuleStore {
    type V = Map<Seq<char>, Module>;

    closed spec fn view(&self) -> Map<Seq<char>, Module> {
        Map::new(
            |k: Seq<char>| self.keys().contains(k),
            |k: Seq<char>| self.entries@[choose|j: int| 0 <= j < self.keys().len() && self.keys()[j] == k].1,
        )
    }
}

} // verus!

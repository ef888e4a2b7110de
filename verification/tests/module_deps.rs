use spectra::module::{DepsError, Module, ModuleKey, ModuleStore};
use spectra::syntax::{
    join_path, ExternalDeclaration, ImportList, ModulePath,
};

fn path(s: &str) -> ModulePath {
    ModulePath { path: s.split('.').map(|p| p.to_owned()).collect() }
}

fn import(s: &str) -> ImportList {
    ImportList { module: path(s), list: vec!["x".to_owned()] }
}

fn pre(tag: &str) -> ExternalDeclaration {
    ExternalDeclaration::Preprocessor(tag.to_owned())
}

fn module(imports: &[&str], glsl: &[&str]) -> Module {
    Module {
        imports: imports.iter().map(|s| import(s)).collect(),
        glsl: glsl.iter().map(|s| pre(s)).collect(),
    }
}

fn keys(v: &[ModuleKey]) -> Vec<String> {
    v.iter().map(|k| k.0.clone()).collect()
}

#[test]
fn module_key_new_keeps_the_text() {
    let k = ModuleKey::new("foo.bar.zoo");
    assert_eq!(k.0, "foo.bar.zoo");
}

#[test]
fn key_to_path_replaces_dots_and_appends_extension() {
    assert_eq!(ModuleKey::new("foo.bar.zoo").key_to_path(), "foo/bar/zoo.spsl");
    assert_eq!(ModuleKey::new("main").key_to_path(), "main.spsl");
    assert_eq!(ModuleKey::new("").key_to_path(), ".spsl");
    assert_eq!(ModuleKey::new("a..b.").key_to_path(), "a//b/.spsl");
}

#[test]
fn distinct_keys_have_distinct_paths() {
    let a = ModuleKey::new("foo.bar").key_to_path();
    let b = ModuleKey::new("foo.baz").key_to_path();
    let c = ModuleKey::new("foobar").key_to_path();
    assert_ne!(a, b);
    assert_ne!(a, c);
}

#[test]
fn join_path_joins_with_dots() {
    assert_eq!(join_path(&path("foo.bar.zoo")), "foo.bar.zoo");
    assert_eq!(join_path(&ModulePath { path: vec![] }), "");
    assert_eq!(join_path(&ModulePath { path: vec!["single".to_owned()] }), "single");
}

#[test]
fn store_insert_get_and_replace() {
    let mut store = ModuleStore::new();
    assert!(store.get(&ModuleKey::new("a")).is_none());
    store.insert(ModuleKey::new("a"), module(&["b"], &["first"]));
    store.insert(ModuleKey::new("b"), module(&[], &[]));
    assert_eq!(store.get(&ModuleKey::new("a")).unwrap().glsl, vec![pre("first")]);
    store.insert(ModuleKey::new("a"), module(&[], &["second"]));
    assert_eq!(store.get(&ModuleKey::new("a")).unwrap().glsl, vec![pre("second")]);
    assert!(store.get(&ModuleKey::new("c")).is_none());
}

#[test]
fn deps_of_module_without_imports_is_empty() {
    let store = ModuleStore::new();
    let top = module(&[], &["x"]);
    assert_eq!(keys(&top.deps(&store, &ModuleKey::new("top")).unwrap()), Vec::<String>::new());
}

#[test]
fn deps_list_each_module_once_after_its_own_imports() {
    // top imports b and c; b imports c and d.c; c imports d.c
    let mut store = ModuleStore::new();
    store.insert(ModuleKey::new("b"), module(&["c", "d.c"], &[]));
    store.insert(ModuleKey::new("c"), module(&["d.c"], &[]));
    store.insert(ModuleKey::new("d.c"), module(&[], &[]));
    let top = module(&["b", "c"], &[]);
    let deps = top.deps(&store, &ModuleKey::new("top")).unwrap();
    assert_eq!(keys(&deps), vec!["d.c", "c", "b"]);
}

#[test]
fn deps_report_a_cycle() {
    let mut store = ModuleStore::new();
    store.insert(ModuleKey::new("a"), module(&["b"], &[]));
    store.insert(ModuleKey::new("b"), module(&["a"], &[]));
    let top = module(&["a"], &[]);
    match top.deps(&store, &ModuleKey::new("top")) {
        Err(DepsError::Cycle(x, y)) => {
            assert_eq!(x.0, "b");
            assert_eq!(y.0, "a");
        },
        other => panic!("unexpected {:?}", other),
    }
}

#[test]
fn deps_report_a_cycle_through_the_root() {
    let mut store = ModuleStore::new();
    store.insert(ModuleKey::new("a"), module(&["top"], &[]));
    let top = module(&["a"], &[]);
    assert_eq!(
        top.deps(&store, &ModuleKey::new("top")),
        Err(DepsError::Cycle(ModuleKey::new("a"), ModuleKey::new("top")))
    );
}

#[test]
fn deps_report_a_self_import() {
    let store = ModuleStore::new();
    let top = module(&["top"], &[]);
    assert_eq!(
        top.deps(&store, &ModuleKey::new("top")),
        Err(DepsError::Cycle(ModuleKey::new("top"), ModuleKey::new("top")))
    );
}

#[test]
fn deps_report_a_missing_module() {
    let mut store = ModuleStore::new();
    store.insert(ModuleKey::new("a"), module(&["lib.missing"], &[]));
    let top = module(&["a"], &[]);
    assert_eq!(
        top.deps(&store, &ModuleKey::new("top")),
        Err(DepsError::LoadError(ModuleKey::new("lib.missing")))
    );
}

#[test]
fn deps_ignore_duplicate_imports() {
    let mut store = ModuleStore::new();
    store.insert(ModuleKey::new("a"), module(&[], &[]));
    let top = module(&["a", "a"], &[]);
    assert_eq!(keys(&top.deps(&store, &ModuleKey::new("top")).unwrap()), vec!["a"]);
}

#[test]
fn gather_folds_dependencies_before_the_module() {
    let mut store = ModuleStore::new();
    store.insert(ModuleKey::new("b"), module(&["c"], &["b1", "b2"]));
    store.insert(ModuleKey::new("c"), module(&[], &["c1"]));
    let top = module(&["b"], &["top1"]);
    let (folded, deps) = top.gather(&store, &ModuleKey::new("top")).unwrap();
    assert_eq!(keys(&deps), vec!["c", "b"]);
    assert!(folded.imports.is_empty());
    assert_eq!(folded.glsl, vec![pre("c1"), pre("b1"), pre("b2"), pre("top1")]);
}

#[test]
fn gather_reports_the_errors_of_deps() {
    let store = ModuleStore::new();
    let top = module(&["nowhere"], &["top1"]);
    assert_eq!(
        top.gather(&store, &ModuleKey::new("top")),
        Err(DepsError::LoadError(ModuleKey::new("nowhere")))
    );
}

#[test]
fn gather_and_deps_agree() {
    let mut store = ModuleStore::new();
    store.insert(ModuleKey::new("x"), module(&["y", "z"], &["x1"]));
    store.insert(ModuleKey::new("y"), module(&["z"], &["y1"]));
    store.insert(ModuleKey::new("z"), module(&[], &["z1"]));
    let top = module(&["y", "x"], &["t"]);
    let key = ModuleKey::new("top");
    let deps = top.deps(&store, &key).unwrap();
    let (folded, gathered) = top.gather(&store, &key).unwrap();
    assert_eq!(deps, gathered);
    assert_eq!(keys(&deps), vec!["z", "y", "x"]);
    assert_eq!(folded.glsl, vec![pre("z1"), pre("y1"), pre("x1"), pre("t")]);
}

use spectra::cube::{cube_indices, cube_vertex_count};
use spectra::scene::{model_path, Get, Id, ModelCache, Scene};

#[test]
fn id_new_clone_deref_and_from_agree() {
    let a: Id<String> = Id::new(7);
    let b = a.clone();
    let c: Id<String> = 7u32.into();
    assert_eq!(a.id, 7);
    assert_eq!(*b, 7);
    assert_eq!(*c, 7);
}

#[test]
fn model_cache_insert_and_get() {
    let mut cache: ModelCache<String> = ModelCache::new();
    assert!(cache.get("cube").is_none());
    cache.insert("cube", Id::new(0));
    cache.insert("sphere", Id::new(1));
    assert_eq!(*cache.get("cube").unwrap(), 0);
    cache.insert("cube", Id::new(5));
    assert_eq!(*cache.get("cube").unwrap(), 5);
    assert_eq!(*cache.get("sphere").unwrap(), 1);
}

#[test]
fn inserted_models_are_found_by_id_and_name() {
    let mut scene: Scene<u8, String, ()> = Scene::new(9);
    assert!(scene.cached_id("cube").is_none());
    let a = scene.insert_model("cube", "cube data".to_owned());
    let b = scene.insert_model("tree", "tree data".to_owned());
    assert_eq!(*a, 0);
    assert_eq!(*b, 1);
    assert_eq!(*scene.cached_id("cube").unwrap(), 0);
    assert_eq!(*scene.cached_id("tree").unwrap(), 1);
    assert_eq!(scene.get_by_id(a).map(|s| s.as_str()), Some("cube data"));
    assert_eq!(scene.get_by_id(b).map(|s| s.as_str()), Some("tree data"));
    assert!(scene.get_by_id(Id::new(2)).is_none());
}

#[test]
fn resource_manager_is_handed_out_mutably() {
    let mut scene: Scene<u8, String, ()> = Scene::new(1);
    *scene.resource_manager() += 4;
    assert_eq!(*scene.resource_manager(), 5);
}

struct Shelf {
    items: Vec<String>,
    lookups: usize,
}

impl Get<String> for Shelf {
    type Id = usize;

    fn get_id(&mut self, name: &str) -> Option<usize> {
        self.lookups += 1;
        self.items.iter().position(|i| i == name)
    }

    fn get_by_id(&self, id: usize) -> Option<&String> {
        self.items.get(id)
    }
}

#[test]
fn get_resolves_the_name_then_the_id() {
    let mut shelf = Shelf { items: vec!["a".to_owned(), "b".to_owned()], lookups: 0 };
    assert_eq!(shelf.get("b").map(|s| s.as_str()), Some("b"));
    assert!(shelf.get("c").is_none());
    assert_eq!(shelf.lookups, 2);
}

#[test]
fn cube_indices_form_twelve_triangles_on_existing_vertices() {
    for with_normals in [true, false] {
        let idx = cube_indices(with_normals);
        let n = cube_vertex_count(with_normals);
        assert_eq!(idx.len(), 36);
        assert!(idx.iter().all(|&i| (i as usize) < n));
    }
    assert_eq!(cube_vertex_count(true), 24);
    assert_eq!(cube_vertex_count(false), 8);
    assert_eq!(&cube_indices(false)[6..12], &[1, 5, 3, 3, 5, 7]);
    assert_eq!(&cube_indices(true)[30..36], &[20, 21, 22, 22, 21, 23]);
}

#[test]
fn model_path_follows_the_data_layout() {
    assert_eq!(model_path("cube"), "data/models/cube.obj");
    assert_eq!(model_path(""), "data/models/.obj");
}

#[test]
fn a_cached_name_is_always_found_again() {
    let mut scene: Scene<u8, String, ()> = Scene::new(0);
    scene.insert_model("cube", "first".to_owned());
    scene.insert_model("cube", "second".to_owned());
    let id = scene.cached_id("cube").unwrap();
    assert_eq!(*id, 1);
    assert_eq!(scene.get_by_id(id).map(|s| s.as_str()), Some("second"));
    assert_eq!(scene.model_count(), 2);
}

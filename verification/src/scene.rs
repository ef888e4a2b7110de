use std::marker::PhantomData;
use std::ops::Deref;

use vstd::prelude::*;

verus! {

/// A typed identifier.
#[derive(Debug)]
pub struct Id<'a, T> {
    pub id: u32,
    _t: PhantomData<&'a T>,
}

impl<'a, T> View for Id<'a, T> {
    type V = u32;

    /// The number that the identifier holds. The view is closed because the marker field is
    /// private; `new` and `deref` state what it is.
    closed spec fn view(&self) -> u32 {
        self.id
    }
}

impl<'a, T> Id<'a, T> {
    /// The identifier `id`.
    pub closed spec fn spec_new(id: u32) -> Self {
        Id { id, _t: PhantomData }
    }

    pub fn new(id: u32) -> (res: Self)
        ensures
            res == Self::spec_new(id),
            res@ == id,
    {
        Id { id, _t: PhantomData }
    }
}

impl<'a, T> Clone for Id<'a, T> {
    fn clone(&self) -> (res: Self)
        ensures
            res == *self,
    {
        Id { id: self.id, _t: PhantomData }
    }
}

impl<'a, T> Deref for Id<'a, T> {
    type Target = u32;

    fn deref(&self) -> (res: &u32)
        ensures
            *res == self@,
    {
        &self.id
    }
}

impl<'a, T> From<u32> for Id<'a, T> {
    fn from(id: u32) -> (res: Self) {
        Id::new(id)
    }
}

impl<'a, T> vstd::std_specs::convert::FromSpecImpl<u32> for Id<'a, T> {
    open spec fn obeys_from_spec() -> bool {
        true
    }

    open spec fn from_spec(v: u32) -> Self {
        Id::spec_new(v)
    }
}

/// A cache that resolves an instance name to the identifier of a model.
pub struct ModelCache<'a, M> {
    entries: Vec<(String, Id<'a, M>)>,
}

impl<'a, M> ModelCache<'a, M> {
    /// The cached names, in insertion order.
    closed spec fn names(&self) -> Seq<Seq<char>> {
        self.entries@.map_values(|e: (String, Id<'a, M>)| e.0@)
    }

    #[verifier::type_invariant]
    closed spec fn inv(&self) -> bool {
        self.names().no_duplicates()
    }

    /// An empty cache.
    pub fn new() -> (res: Self)
        ensures
            res@ == Map::<Seq<char>, u32>::empty(),
    {
        let res = ModelCache { entries: Vec::new() };
        assert(res@ =~= Map::<Seq<char>, u32>::empty());
        res
    }

    /// Index of `name` in the cache, if it is cached.
    fn find(&self, name: &str) -> (res: Option<usize>)
        ensures
            match res {
                Some(i) => i < self.entries@.len() && self.names()[i as int] == name@,
                None => !self.names().contains(name@),
            },
    {
        let n = self.entries.len();
        let mut i: usize = 0;
        while i < n
            invariant
                n == self.entries@.len(),
                i <= n,
                forall|j: int| 0 <= j < i ==> self.names()[j] != name@,
            decreases n - i,
        {
            if crate::text::str_eq(self.entries[i].0.as_str(), name) {
                return Some(i);
            }
            i = i + 1;
        }
        None
    }

    proof fn lemma_entry(&self, i: int)
        requires
            self.inv(),
            0 <= i < self.entries@.len(),
        ensures
            self@.contains_key(self.names()[i]),
            self@[self.names()[i]] == self.entries@[i].1@,
    {
        let k = self.names()[i];
        let j = choose|j: int| 0 <= j < self.names().len() && self.names()[j] == k;
        assert(j == i);
    }

    /// The identifier cached for `name`, if any.
    pub fn get(&self, name: &str) -> (res: Option<Id<'a, M>>)
        ensures
            match res {
                Some(id) => self@.contains_key(name@) && id@ == self@[name@],
                None => !self@.contains_key(name@),
            },
    {
        proof {
            use_type_invariant(self);
        }
        match self.find(name) {
            Some(i) => {
                proof {
                    self.lemma_entry(i as int);
                }
                Some(self.entries[i].1.clone())
            },
            None => None,
        }
    }

    /// Caches `id` for `name`, in place of any identifier cached for it before.
    pub fn insert(&mut self, name: &str, id: Id<'a, M>)
        ensures
            final(self)@ == old(self)@.insert(name@, id@),
    {
        proof {
            use_type_invariant(&*self);
        }
        let ghost old_names = self.names();
        let ghost old_map = self@;
        let ghost v = id@;
        let found = self.find(name);
        let mut entries: Vec<(String, Id<'a, M>)> = Vec::new();
        std::mem::swap(&mut entries, &mut self.entries);
        match found {
            Some(i) => {
                entries.set(i, (name.to_owned(), id));
            },
            None => {
                entries.push((name.to_owned(), id));
            },
        }
        let ghost new_names = entries@.map_values(|e: (String, Id<'a, M>)| e.0@);
        proof {
            match found {
                Some(i) => {
                    assert(new_names =~= old_names);
                    assert(old_names[i as int] == name@);
                    assert(old_names.contains(name@));
                },
                None => {
                    assert(new_names =~= old_names.push(name@));
                    assert forall|a: int, b: int| 0 <= a < b < new_names.len() implies new_names[a] != new_names[b] by {
                        if b == old_names.len() {
                            assert(old_names.contains(old_names[a]));
                        }
                    }
                    assert forall|x: Seq<char>| new_names.contains(x) <==> (old_names.contains(x) || x == name@) by {
                        if new_names.contains(x) {
                            let j = choose|j: int| 0 <= j < new_names.len() && new_names[j] == x;
                            if j < old_names.len() {
                                assert(old_names[j] == x);
                            }
                        }
                        if old_names.contains(x) {
                            let j = choose|j: int| 0 <= j < old_names.len() && old_names[j] == x;
                            assert(new_names[j] == x);
                        }
                        if x == name@ {
                            assert(new_names[old_names.len() as int] == x);
                        }
                    }
                },
            }
        }
        self.entries = entries;
        proof {
            let m = self@;
            let want = old_map.insert(name@, v);
            assert(self.names() =~= new_names);
            assert(forall|x: Seq<char>| #[trigger] old_map.contains_key(x) == old_names.contains(x));
            assert forall|x: Seq<char>| m.contains_key(x) <==> want.contains_key(x) by {
                assert(m.contains_key(x) == new_names.contains(x));
            }
            assert forall|x: Seq<char>| #[trigger] m.contains_key(x) implies m[x] == want[x] by {
                let j = choose|j: int| 0 <= j < new_names.len() && new_names[j] == x;
                self.lemma_entry(j);
                if x != name@ {
                    assert(old_names[j] == x);
                    let jj = choose|jj: int| 0 <= jj < old_names.len() && old_names[jj] == x;
                    assert(jj == j);
                } else {
                    match found {
                        Some(i) => { assert(new_names[i as int] == x); },
                        None => { assert(new_names[old_names.len() as int] == x); },
                    }
                }
            }
            assert(m =~= want);
        }
    }
}

impl<'a, M> View for ModelCache<'a, M> {
    type V = Map<Seq<char>, u32>;

    closed spec fn view(&self) -> Map<Seq<char>, u32> {
        Map::new(
            |k: Seq<char>| self.names().contains(k),
            |k: Seq<char>| self.entries@[choose|j: int| 0 <= j < self.names().len() && self.names()[j] == k].1@,
        )
    }
}

/// The scene type.
///
/// It gathers the objects a scene needs: the resource manager `R` that handles scarce resources,
/// the loaded models `M`, a cache that resolves a model's instance name to its identifier, and the
/// model entities `E` of the scene, by name.
pub struct Scene<'a, R, M, E> {
    res_manager: R,
    models: Vec<M>,
    model_cache: ModelCache<'a, M>,
    model_entities: Vec<(String, E)>,
}

/// An model entity living in a scene: a static entity `S`, or a dynamic one `D` that can be
/// sampled in time.
pub enum SceneModelEntity<S, D> {
    Static(S),
    Dynamic(D),
}

impl<'a, R, M, E> Scene<'a, R, M, E> {
    /// The loaded models; a model's identifier is its index.
    pub closed spec fn models(&self) -> Seq<M> {
        self.models@
    }

    /// The model cache: the identifier of each model instance name.
    pub closed spec fn cache(&self) -> Map<Seq<char>, u32> {
        self.model_cache@
    }

    /// The resource manager.
    pub closed spec fn res_manager(&self) -> R {
        self.res_manager
    }

    /// The model entities, by name.
    pub closed spec fn model_entities(&self) -> Seq<(String, E)> {
        self.model_entities@
    }

    /// No two model entities share a name: the entities form a map from names.
    pub open spec fn entity_names_distinct(&self) -> bool {
        forall|i: int, j: int|
            0 <= i < j < self.model_entities().len() ==> #[trigger] self.model_entities()[i].0@ != #[trigger] self.model_entities()[j].0@
    }

    /// The model that `id` designates, if any.
    pub open spec fn model_of(&self, id: u32) -> Option<M> {
        if id < self.models().len() {
            Some(self.models()[id as int])
        } else {
            None
        }
    }

    /// Every cached identifier designates a loaded model. A new scene has this property and every
    /// operation keeps it.
    pub open spec fn cache_designates_models(&self) -> bool {
        forall|n: Seq<char>| #[trigger] self.cache().contains_key(n) ==> self.cache()[n] < self.models().len()
    }

    /// A scene with no model, no cached name and no entity, that uses `res_manager`.
    pub fn new(res_manager: R) -> (res: Self)
        ensures
            res.res_manager() == res_manager,
            res.models() == Seq::<M>::empty(),
            res.cache() == Map::<Seq<char>, u32>::empty(),
            res.model_entities() == Seq::<(String, E)>::empty(),
            res.cache_designates_models(),
            res.entity_names_distinct(),
    {
        let res = Scene { res_manager, models: Vec::new(), model_cache: ModelCache::new(), model_entities: Vec::new() };
        assert(res.models() =~= Seq::<M>::empty());
        assert(res.model_entities() =~= Seq::<(String, E)>::empty());
        res
    }

    /// The resource manager, to use it or change it.
    pub fn resource_manager(&mut self) -> (res: &mut R)
        ensures
            *res == old(self).res_manager(),
            final(self).res_manager() == *final(res),
            final(self).models() == old(self).models(),
            final(self).cache() == old(self).cache(),
            final(self).model_entities() == old(self).model_entities(),
    {
        &mut self.res_manager
    }

    /// The number of loaded models.
    pub fn model_count(&self) -> (res: usize)
        ensures
            res == self.models().len(),
    {
        self.models.len()
    }

    /// The cached identifier of the model instance `name`, if the name is cached.
    pub fn cached_id(&self, name: &str) -> (res: Option<Id<'a, M>>)
        ensures
            match res {
                Some(id) => {
                    &&& self.cache().contains_key(name@)
                    &&& id@ == self.cache()[name@]
                    &&& self.cache_designates_models() ==> self.model_of(id@) is Some
                },
                None => !self.cache().contains_key(name@),
            },
    {
        self.model_cache.get(name)
    }

    /// Adds the model `model`, loaded for the instance `name`: it gets the next identifier, and
    /// the cache resolves `name` to that identifier from then on.
    pub fn insert_model(&mut self, name: &str, model: M) -> (res: Id<'a, M>)
        requires
            old(self).models().len() < u32::MAX,
        ensures
            res@ == old(self).models().len(),
            final(self).models() == old(self).models().push(model),
            final(self).cache() == old(self).cache().insert(name@, res@),
            final(self).res_manager() == old(self).res_manager(),
            final(self).model_entities() == old(self).model_entities(),
            old(self).cache_designates_models() ==> final(self).cache_designates_models(),
    {
        let model_id: Id<'a, M> = Id::new(self.models.len() as u32);
        self.models.push(model);
        self.model_cache.insert(name, model_id.clone());
        proof {
            if old(self).cache_designates_models() {
                assert forall|n: Seq<char>| #[trigger] self.cache().contains_key(n) implies self.cache()[n] < self.models().len() by {
                    if n != name@ {
                        assert(old(self).cache().contains_key(n));
                    }
                }
            }
        }
        model_id
    }

    /// The model that `id` designates, if any.
    pub fn get_by_id(&self, id: Id<'a, M>) -> (res: Option<&M>)
        ensures
            match res {
                Some(m) => self.model_of(id@) == Some(*m),
                None => self.model_of(id@) is None,
            },
    {
        let i: u32 = *id;
        if (i as usize) < self.models.len() {
            Some(&self.models[i as usize])
        } else {
            None
        }
    }
}

/// A model added to a scene is found again by the identifier it was given and by its name, and
/// the models added before it keep their identifiers.
pub proof fn lemma_inserted_model_found<'a, R, M, E>(
    before: Scene<'a, R, M, E>,
    after: Scene<'a, R, M, E>,
    name: Seq<char>,
    model: M,
    id: u32,
)
    requires
        id == before.models().len(),
        after.models() == before.models().push(model),
        after.cache() == before.cache().insert(name, id),
    ensures
        after.model_of(id) == Some(model),
        after.cache().contains_key(name),
        after.cache()[name] == id,
        forall|j: u32| j < id ==> after.model_of(j) == before.model_of(j),
        forall|n: Seq<char>| n != name ==> after.cache().contains_key(n) == before.cache().contains_key(n),
        forall|n: Seq<char>| n != name && before.cache().contains_key(n) ==> after.cache()[n] == before.cache()[n],
{
}

/// Where the model of the instance `name` is looked for: `data/models/<name>.obj`.
pub fn model_path(name: &str) -> (res: String)
    ensures
        res@ == "data/models/"@ + name@ + ".obj"@,
{
    let mut res = String::new();
    res.append("data/models/");
    res.append(name);
    res.append(".obj");
    res
}

/// Access to the objects of a collection, by name or by identifier.
///
/// An implementation says, through `resolves` and `designates`, what its two lookups give back;
/// `get` is then the object that the identifier found for the name designates.
pub trait Get<T>: Sized {
    type Id;

    /// Whether looking `name` up in this collection may leave it as `after` and find `id`.
    /// An implementation that does not define it promises nothing of its lookups by name.
    open spec fn resolves(&self, name: Seq<char>, after: Self, id: Option<Self::Id>) -> bool {
        true
    }

    /// Whether `obj` is what `id` designates in this collection. An implementation that does not
    /// define it promises nothing of its lookups by identifier.
    open spec fn designates(&self, id: Self::Id, obj: Option<&T>) -> bool {
        true
    }

    /// The identifier of the object called `name`, if there is one.
    fn get_id(&mut self, name: &str) -> (res: Option<Self::Id>)
        ensures
            old(self).resolves(name@, *final(self), res),
    ;

    /// The object that `id` designates, if any.
    fn get_by_id(&self, id: Self::Id) -> (res: Option<&T>)
        ensures
            self.designates(id, res),
    ;

    /// The object called `name`, if there is one: the name is resolved to an identifier first,
    /// and the object that the identifier designates in the collection as the lookup left it is
    /// returned.
    fn get(&mut self, name: &str) -> (res: Option<&T>)
        ensures
            exists|id: Option<Self::Id>|
                {
                    &&& #[trigger] old(self).resolves(name@, *final(self), id)
                    &&& match id {
                        Some(i) => final(self).designates(i, res),
                        None => res is None,
                    }
                },
    {
        match self.get_id(name) {
            Some(i) => self.get_by_id(i),
            None => None,
        }
    }
}

} // verus!

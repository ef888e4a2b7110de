use vstd::prelude::*;

verus! {

/// An import graph: each module key mapped to the keys that it imports, in order.
pub type Graph = Map<Seq<char>, Seq<Seq<char>>>;

/// `a` is loaded in `g` and imports `b`.
pub open spec fn step(g: Graph, a: Seq<char>, b: Seq<char>) -> bool {
    g.contains_key(a) && g[a].contains(b)
}

/// The `i`-th edge of `p` is a step of `g`.
pub open spec fn edge_at(g: Graph, p: Seq<Seq<char>>, i: int) -> bool {
    step(g, p[i], p[i + 1])
}

/// `p` is a non-empty walk along the imports of `g`; only its last node may be missing from `g`.
pub open spec fn is_path(g: Graph, p: Seq<Seq<char>>) -> bool {
    &&& p.len() >= 1
    &&& forall|i: int| 0 <= i < p.len() - 1 ==> #[trigger] edge_at(g, p, i)
}

/// `p` is a walk of `g` that starts at `r`.
pub open spec fn path_from(g: Graph, r: Seq<char>, p: Seq<Seq<char>>) -> bool {
    is_path(g, p) && p[0] == r
}

/// `x` can be reached from `r` by following one import or more.
pub open spec fn reaches(g: Graph, r: Seq<char>, x: Seq<char>) -> bool {
    exists|p: Seq<Seq<char>>| #[trigger] path_from(g, r, p) && p.len() >= 2 && p.last() == x
}

/// Every module that can be reached from `r` is loaded.
pub open spec fn loaded_from(g: Graph, r: Seq<char>) -> bool {
    forall|p: Seq<Seq<char>>| #[trigger] path_from(g, r, p) ==> g.contains_key(p.last())
}

/// No walk from `r` visits a module twice: no import cycle can be reached from `r`.
pub open spec fn acyclic_from(g: Graph, r: Seq<char>) -> bool {
    forall|p: Seq<Seq<char>>| #[trigger] path_from(g, r, p) ==> p.no_duplicates()
}

/// Some walk from `r` comes back to `k`: `k` lies on an import cycle reachable from `r`.
pub open spec fn revisits(g: Graph, r: Seq<char>, k: Seq<char>) -> bool {
    exists|p: Seq<Seq<char>>| #[trigger] path_from(g, r, p) && p.last() == k && p.drop_last().contains(k)
}

/// `k` is reachable from `r` and is not loaded.
pub open spec fn misses(g: Graph, r: Seq<char>, k: Seq<char>) -> bool {
    exists|p: Seq<Seq<char>>| #[trigger] path_from(g, r, p) && p.last() == k && !g.contains_key(k)
}

/// `x` occurs in `d` before index `i`.
pub open spec fn occurs_before(d: Seq<Seq<char>>, i: int, x: Seq<char>) -> bool {
    exists|j: int| 0 <= j < i && #[trigger] d[j] == x
}

/// Every module of `d` is loaded, and each module that it imports occurs earlier in `d`.
pub open spec fn dependency_order(g: Graph, d: Seq<Seq<char>>) -> bool {
    forall|i: int| 0 <= i < d.len() ==> {
        &&& g.contains_key(#[trigger] d[i])
        &&& forall|x: Seq<char>| #[trigger] g[d[i]].contains(x) ==> occurs_before(d, i, x)
    }
}

/// The import of `b` by `a` closes a cycle: `a` imports `b`, and `b` is `a` itself or reaches `a`.
pub open spec fn closes_cycle(g: Graph, a: Seq<char>, b: Seq<char>) -> bool {
    step(g, a, b) && (a == b || reaches(g, b, a))
}

/// When the last module of a walk imports a module already on the walk, that import closes a
/// cycle.
pub proof fn lemma_closes_cycle(g: Graph, r: Seq<char>, pp: Seq<Seq<char>>, b: Seq<char>)
    requires
        path_from(g, r, pp),
        pp.contains(b),
        step(g, pp.last(), b),
    ensures
        closes_cycle(g, pp.last(), b),
{
    let a = pp.last();
    if a != b {
        let j = choose|j: int| 0 <= j < pp.len() && pp[j] == b;
        let q = pp.subrange(j, pp.len() as int);
        assert(j < pp.len() - 1);
        assert forall|i: int| 0 <= i < q.len() - 1 implies #[trigger] edge_at(g, q, i) by {
            assert(edge_at(g, pp, i + j));
            assert(q[i] == pp[i + j] && q[i + 1] == pp[i + j + 1]);
        }
        assert(path_from(g, b, q) && q.len() >= 2 && q.last() == a);
    }
}

/// What a depth-first visit of the imports yields: the modules in the order in which their visit
/// completes, or the first import found to close a cycle (the importing module, then the module
/// it re-enters), or the first module found missing.
pub enum DepsOutcome {
    Done(Seq<Seq<char>>),
    Cycle(Seq<char>, Seq<char>),
    Missing(Seq<char>),
}

/// Visits `nodes` in order, depth first, each module after the modules that it imports. `parents`
/// holds the modules whose visit is under way, `done` the modules whose visit is complete, in order
/// of completion. A module already done is skipped; reaching a module under way is a cycle;
/// reaching a module that is not loaded stops the visit. `fuel` bounds the depth.
pub open spec fn visit(
    g: Graph,
    fuel: nat,
    nodes: Seq<Seq<char>>,
    parents: Seq<Seq<char>>,
    done: Seq<Seq<char>>,
) -> DepsOutcome
    decreases fuel, nodes.len(),
{
    if nodes.len() == 0 {
        DepsOutcome::Done(done)
    } else {
        let n = nodes[0];
        let rest = nodes.drop_first();
        if done.contains(n) {
            visit(g, fuel, rest, parents, done)
        } else if parents.contains(n) {
            DepsOutcome::Cycle(parents.last(), n)
        } else if !g.contains_key(n) || fuel == 0 {
            DepsOutcome::Missing(n)
        } else {
            match visit(g, (fuel - 1) as nat, g[n], parents.push(n), done) {
                DepsOutcome::Done(d) => visit(g, fuel, rest, parents, d.push(n)),
                other => other,
            }
        }
    }
}

/// The depth-first visit of the imports of `r`, with enough fuel for every module of `g`.
pub open spec fn dfs_deps(g: Graph, r: Seq<char>) -> DepsOutcome {
    visit(g, (g.dom().len() - 1) as nat, g[r], seq![r], Seq::empty())
}

/// A sequence without duplicates whose elements all lie in a finite set is no longer than the set.
pub proof fn lemma_distinct_bounded(s: Seq<Seq<char>>, set: Set<Seq<char>>)
    requires
        s.no_duplicates(),
        set.finite(),
        forall|i: int| 0 <= i < s.len() ==> set.contains(#[trigger] s[i]),
    ensures
        s.len() <= set.len(),
{
    s.unique_seq_to_set();
    assert(s.to_set().subset_of(set));
    vstd::set_lib::lemma_len_subset(s.to_set(), set);
}

/// Every node after the first of a walk from `r` lies in `d`, when `d` holds the imports of `r` and
/// is closed under imports.
pub proof fn lemma_walk_in(g: Graph, r: Seq<char>, d: Seq<Seq<char>>, p: Seq<Seq<char>>)
    requires
        dependency_order(g, d),
        g.contains_key(r),
        forall|x: Seq<char>| #[trigger] g[r].contains(x) ==> d.contains(x),
        path_from(g, r, p),
    ensures
        forall|m: int| 1 <= m < p.len() ==> d.contains(#[trigger] p[m]),
    decreases p.len(),
{
    if p.len() > 1 {
        let q = p.drop_last();
        assert(path_from(g, r, q)) by {
            assert forall|i: int| 0 <= i < q.len() - 1 implies #[trigger] edge_at(g, q, i) by {
                assert(edge_at(g, p, i));
            }
        }
        lemma_walk_in(g, r, d, q);
        let n = p.len() - 1;
        assert(edge_at(g, p, n - 1));
        let u = p[n - 1];
        if n - 1 == 0 {
            assert(g[r].contains(p[n]));
        } else {
            assert(q[n - 1] == u);
            assert(d.contains(u));
            let iu = choose|iu: int| 0 <= iu < d.len() && d[iu] == u;
            assert(g[d[iu]].contains(p[n]));
            assert(occurs_before(d, iu, p[n]));
            let j = choose|j: int| 0 <= j < iu && #[trigger] d[j] == p[n];
            assert(d.contains(p[n]));
        }
        assert forall|m: int| 1 <= m < p.len() implies d.contains(#[trigger] p[m]) by {
            if m < n {
                assert(q[m] == p[m]);
            }
        }
    }
}

/// Along a walk that stays in `d` (after its first node), each node occurs in `d` strictly before
/// the node that imports it.
proof fn lemma_walk_descends(g: Graph, d: Seq<Seq<char>>, p: Seq<Seq<char>>, a: int, b: int)
    requires
        dependency_order(g, d),
        d.no_duplicates(),
        is_path(g, p),
        forall|m: int| 1 <= m < p.len() ==> d.contains(#[trigger] p[m]),
        1 <= a < b < p.len(),
    ensures
        exists|ia: int, ib: int|
            0 <= ib < ia < d.len() && #[trigger] d[ia] == p[a] && #[trigger] d[ib] == p[b],
    decreases b - a,
{
    assert(d.contains(p[a]));
    let ia = choose|ia: int| 0 <= ia < d.len() && d[ia] == p[a];
    let pred = if b == a + 1 { ia } else {
        lemma_walk_descends(g, d, p, a, b - 1);
        let (ia2, ib2) = choose|ia2: int, ib2: int|
            0 <= ib2 < ia2 < d.len() && #[trigger] d[ia2] == p[a] && #[trigger] d[ib2] == p[b - 1];
        assert(ia2 == ia);
        ib2
    };
    assert(d[pred] == p[b - 1]);
    assert(edge_at(g, p, b - 1));
    assert(g[d[pred]].contains(p[b]));
    assert(occurs_before(d, pred, p[b]));
    let j = choose|j: int| 0 <= j < pred && #[trigger] d[j] == p[b];
    assert(d[ia] == p[a] && d[j] == p[b]);
}

/// A sequence of modules that holds the imports of `r`, is closed under imports in dependency order
/// and does not hold `r` proves that every module reachable from `r` is loaded and that no cycle is
/// reachable from `r`.
pub proof fn lemma_complete_order(g: Graph, r: Seq<char>, d: Seq<Seq<char>>)
    requires
        dependency_order(g, d),
        d.no_duplicates(),
        !d.contains(r),
        g.contains_key(r),
        forall|x: Seq<char>| #[trigger] g[r].contains(x) ==> d.contains(x),
    ensures
        loaded_from(g, r),
        acyclic_from(g, r),
        forall|x: Seq<char>| reaches(g, r, x) ==> d.contains(x),
{
    assert forall|p: Seq<Seq<char>>| #[trigger] path_from(g, r, p) implies g.contains_key(p.last())
        && p.no_duplicates() by {
        lemma_walk_in(g, r, d, p);
        if p.len() > 1 {
            assert(d.contains(p[p.len() - 1]));
            let i = choose|i: int| 0 <= i < d.len() && d[i] == p.last();
            assert(g.contains_key(d[i]));
        }
        assert forall|a: int, b: int| 0 <= a < b < p.len() implies p[a] != p[b] by {
            assert(d.contains(p[b]));
            if a == 0 {
            } else {
                lemma_walk_descends(g, d, p, a, b);
            }
        }
    }
    assert forall|x: Seq<char>| reaches(g, r, x) implies d.contains(x) by {
        let p = choose|p: Seq<Seq<char>>| #[trigger] path_from(g, r, p) && p.len() >= 2 && p.last() == x;
        lemma_walk_in(g, r, d, p);
        assert(d.contains(p[p.len() - 1]));
    }
}

} // verus!

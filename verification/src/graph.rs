//! The dependency graph between the packages of a workspace.
use vstd::prelude::*;

use crate::text::{contains_str, insert_sorted, strictly_sorted, views};

verus! {

/// The edges of a graph as (dependent, dependency) name pairs.
pub open spec fn edge_views(e: Seq<(String, String)>) -> Seq<(Seq<char>, Seq<char>)> {
    e.map_values(|p: (String, String)| (p.0@, p.1@))
}

/// `x` depends, through a chain of at most `n` edges, on one of `seeds`.
pub open spec fn reaches(edges: Seq<(Seq<char>, Seq<char>)>, seeds: Seq<Seq<char>>, x: Seq<char>, n: nat) -> bool
    decreases n,
{
    if n == 0 {
        false
    } else {
        exists|i: int|
            0 <= i < edges.len() && #[trigger] edges[i].0 == x && (seeds.contains(edges[i].1) || reaches(
                edges,
                seeds,
                edges[i].1,
                (n - 1) as nat,
            ))
    }
}

/// `x` depends, directly or through other packages, on one of `seeds`.
pub open spec fn depends_on_any(edges: Seq<(Seq<char>, Seq<char>)>, seeds: Seq<Seq<char>>, x: Seq<char>) -> bool {
    exists|n: nat| reaches(edges, seeds, x, n)
}

/// The direct dependencies of `name`, in edge order.
pub open spec fn deps_of(edges: Seq<(Seq<char>, Seq<char>)>, name: Seq<char>) -> Seq<Seq<char>>
    decreases edges.len(),
{
    if edges.len() == 0 {
        Seq::empty()
    } else {
        let rest = deps_of(edges.drop_last(), name);
        if edges.last().0 == name {
            rest.push(edges.last().1)
        } else {
            rest
        }
    }
}

/// How many edges start at a name not yet in `found`.
spec fn pending(edges: Seq<(Seq<char>, Seq<char>)>, found: Seq<Seq<char>>) -> nat
    decreases edges.len(),
{
    if edges.len() == 0 {
        0
    } else {
        pending(edges.drop_last(), found) + if found.contains(edges.last().0) {
            0nat
        } else {
            1nat
        }
    }
}

proof fn lemma_pending_shrinks(edges: Seq<(Seq<char>, Seq<char>)>, a: Seq<Seq<char>>, b: Seq<Seq<char>>, i: int)
    requires
        forall|k: Seq<char>| a.contains(k) ==> b.contains(k),
    ensures
        pending(edges, b) <= pending(edges, a),
        0 <= i < edges.len() && !a.contains(edges[i].0) && b.contains(edges[i].0) ==> pending(edges, b) < pending(edges, a),
    decreases edges.len(),
{
    if edges.len() > 0 {
        lemma_pending_shrinks(edges.drop_last(), a, b, i);
    }
}

/// A chain of `n` edges can be extended by one edge in front.
proof fn lemma_reaches_step(edges: Seq<(Seq<char>, Seq<char>)>, seeds: Seq<Seq<char>>, i: int, n: nat)
    requires
        0 <= i < edges.len(),
        seeds.contains(edges[i].1) || reaches(edges, seeds, edges[i].1, n),
    ensures
        reaches(edges, seeds, edges[i].0, n + 1),
{
    assert(edges[i].0 == edges[i].0);
}

/// A set of non-seed names closed under "depends on a member or a seed"
/// holds every non-seed that depends on a seed.
proof fn lemma_closed_complete(
    edges: Seq<(Seq<char>, Seq<char>)>,
    seeds: Seq<Seq<char>>,
    found: Seq<Seq<char>>,
    x: Seq<char>,
    n: nat,
)
    requires
        forall|i: int|
            0 <= i < edges.len() && (seeds.contains(#[trigger] edges[i].1) || found.contains(edges[i].1)) ==> (
            seeds.contains(edges[i].0) || found.contains(edges[i].0)),
        reaches(edges, seeds, x, n),
    ensures
        seeds.contains(x) || found.contains(x),
    decreases n,
{
    let i = choose|i: int|
        0 <= i < edges.len() && #[trigger] edges[i].0 == x && (seeds.contains(edges[i].1) || reaches(
            edges,
            seeds,
            edges[i].1,
            (n - 1) as nat,
        ));
    if !seeds.contains(edges[i].1) {
        lemma_closed_complete(edges, seeds, found, edges[i].1, (n - 1) as nat);
    }
}

/// Which workspace package depends on which.
#[derive(Debug, Clone)]
pub struct WorkspaceDependencyGraph {
    /// (dependent, dependency) pairs.
    pub edges: Vec<(String, String)>,
}

impl WorkspaceDependencyGraph {
    pub fn new(edges: Vec<(String, String)>) -> (g: WorkspaceDependencyGraph)
        ensures
            g.edges@ == edges@,
    {
        WorkspaceDependencyGraph { edges }
    }

    /// The packages that depend, directly or transitively, on one of
    /// `names`, leaving out `names` themselves; in name order.
    pub fn transitive_dependents_of_set(&self, names: &Vec<String>) -> (r: Vec<String>)
        ensures
            strictly_sorted(views(r@)),
            forall|x: Seq<char>|
                views(r@).contains(x) <==> (!views(names@).contains(x) && depends_on_any(
                    edge_views(self.edges@),
                    views(names@),
                    x,
                )),
    {
        let ghost e = edge_views(self.edges@);
        let ghost seeds = views(names@);
        let mut found: Vec<String> = Vec::new();
        let mut changed = true;
        while changed
            invariant
                e == edge_views(self.edges@),
                seeds == views(names@),
                strictly_sorted(views(found@)),
                forall|x: Seq<char>| #[trigger]
                    views(found@).contains(x) ==> !seeds.contains(x) && depends_on_any(e, seeds, x),
                !changed ==> forall|i: int|
                    0 <= i < e.len() && (seeds.contains(#[trigger] e[i].1) || views(found@).contains(e[i].1))
                        ==> (seeds.contains(e[i].0) || views(found@).contains(e[i].0)),
            decreases pending(e, views(found@)) + if changed {
                1nat
            } else {
                0nat
            },
        {
            changed = false;
            let ghost before = views(found@);
            let mut i: usize = 0;
            while i < self.edges.len()
                invariant
                    i <= self.edges.len(),
                    e == edge_views(self.edges@),
                    seeds == views(names@),
                    strictly_sorted(views(found@)),
                    forall|k: Seq<char>| before.contains(k) ==> views(found@).contains(k),
                    forall|x: Seq<char>| #[trigger]
                        views(found@).contains(x) ==> !seeds.contains(x) && depends_on_any(e, seeds, x),
                    changed ==> pending(e, views(found@)) < pending(e, before),
                    !changed ==> views(found@) == before,
                    !changed ==> forall|j: int|
                        0 <= j < i && (seeds.contains(#[trigger] e[j].1) || views(found@).contains(e[j].1))
                            ==> (seeds.contains(e[j].0) || views(found@).contains(e[j].0)),
                decreases self.edges.len() - i,
            {
                let dependent = &self.edges[i].0;
                let dependency = &self.edges[i].1;
                proof {
                    assert(e[i as int] == (dependent@, dependency@));
                }
                let reached = contains_str(names, dependency.as_str()) || contains_str(&found, dependency.as_str());
                if reached && !contains_str(&found, dependent.as_str()) && !contains_str(names, dependent.as_str()) {
                    let ghost prev = views(found@);
                    proof {
                        if seeds.contains(dependency@) {
                            lemma_reaches_step(e, seeds, i as int, 0);
                            assert(depends_on_any(e, seeds, dependent@));
                        } else {
                            assert(depends_on_any(e, seeds, dependency@));
                            let n = choose|n: nat| reaches(e, seeds, dependency@, n);
                            lemma_reaches_step(e, seeds, i as int, n);
                            assert(depends_on_any(e, seeds, dependent@));
                        }
                    }
                    insert_sorted(&mut found, dependent.clone());
                    proof {
                        lemma_pending_shrinks(e, prev, views(found@), i as int);
                        lemma_pending_shrinks(e, before, prev, i as int);
                    }
                    changed = true;
                }
                i = i + 1;
            }
        }
        proof {
            let fv = views(found@);
            assert forall|x: Seq<char>|
                (!seeds.contains(x) && depends_on_any(e, seeds, x)) implies fv.contains(x) by {
                let n = choose|n: nat| reaches(e, seeds, x, n);
                lemma_closed_complete(e, seeds, fv, x, n);
            }
        }
        found
    }

    /// The packages that `name` depends on directly, in edge order.
    pub fn direct_dependencies(&self, name: &str) -> (r: Vec<String>)
        ensures
            views(r@) == deps_of(edge_views(self.edges@), name@),
    {
        let mut r: Vec<String> = Vec::new();
        let mut i: usize = 0;
        while i < self.edges.len()
            invariant
                i <= self.edges.len(),
                views(r@) == deps_of(edge_views(self.edges@).take(i as int), name@),
            decreases self.edges.len() - i,
        {
            proof {
                let t = edge_views(self.edges@).take(i + 1);
                assert(t.drop_last() =~= edge_views(self.edges@).take(i as int));
            }
            if crate::text::str_eq(self.edges[i].0.as_str(), name) {
                crate::text::push_string(&mut r, self.edges[i].1.clone());
            }
            i = i + 1;
        }
        proof {
            assert(edge_views(self.edges@).take(self.edges.len() as int) =~= edge_views(self.edges@));
        }
        r
    }
}

} // verus!

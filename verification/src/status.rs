//! What a release would do now: pending changesets, projected versions,
//! and the dependents that no changeset covers.
use vstd::prelude::*;

use indexmap::IndexMap;

use crate::config::ZeroVersionBehavior;
use crate::error::{OperationError, Result};
use crate::graph::{deps_of, edge_views, depends_on_any, reaches, WorkspaceDependencyGraph};
use crate::model::{
    package_version_views, CargoProject, Changeset, PackageInfo, PackageInfoView, PackageVersion, PackageVersionView, planned_names,
};
use crate::paths::path_join;
use crate::planner::{all_bumps_fit, bump_map_to_vec, entry_views, VersionPlanner};
use crate::text::{contains_str, insert_sorted, owned, push_string, strictly_sorted, views};
use crate::traits::{ChangesetReader, DependencyGraphProvider, InheritedVersionChecker, ProjectProvider};
use crate::validator::{first_package, lookup_package};
use crate::version::{max_bump_of, max_bump_type, lemma_max_bump_of, release_version, release_version_spec, BumpType};

verus! {

/// The release of a package that is bumped only because a package it
/// depends on is released: a patch release, marked as automatic.
pub open spec fn auto_release(p: PackageInfoView, zero: ZeroVersionBehavior) -> PackageVersionView {
    PackageVersionView {
        name: p.name,
        current_version: p.version,
        new_version: release_version_spec(p.version, BumpType::Patch, zero),
        bump_type: BumpType::Patch,
        auto_bumped: true,
    }
}

/// The automatic releases of the named packages that exist, in order.
pub open spec fn auto_releases(pkgs: Seq<PackageInfo>, names: Seq<Seq<char>>, zero: ZeroVersionBehavior) -> Seq<PackageVersionView>
    decreases names.len(),
{
    if names.len() == 0 {
        Seq::empty()
    } else {
        let prev = auto_releases(pkgs, names.drop_last(), zero);
        match first_package(pkgs, names.last()) {
            Some(p) => prev.push(auto_release(p, zero)),
            None => prev,
        }
    }
}

/// Whether every package version can take any bump.
pub fn bumps_fit(packages: &Vec<PackageInfo>) -> (r: bool)
    ensures
        r == all_bumps_fit(packages@),
{
    let mut i: usize = 0;
    while i < packages.len()
        invariant
            i <= packages.len(),
            forall|j: int|
                0 <= j < i ==> #[trigger] packages@[j].version.major < u64::MAX && packages@[j].version.minor < u64::MAX
                    && packages@[j].version.patch < u64::MAX,
        decreases packages.len() - i,
    {
        let v = &packages[i].version;
        if v.major == u64::MAX || v.minor == u64::MAX || v.patch == u64::MAX {
            return false;
        }
        i = i + 1;
    }
    true
}

/// `r` is `initial` followed by a patch release of each package, in name
/// order, that depends directly or transitively on a package of `initial`
/// and is not in it.
pub open spec fn expands_to(
    initial: Seq<PackageVersion>,
    r: Seq<PackageVersion>,
    edges: Seq<(Seq<char>, Seq<char>)>,
    pkgs: Seq<PackageInfo>,
    zero: ZeroVersionBehavior,
) -> bool {
    exists|deps: Seq<Seq<char>>|
        {
            &&& strictly_sorted(deps)
            &&& forall|x: Seq<char>|
                #[trigger] deps.contains(x) <==> (!planned_names(initial).contains(x) && depends_on_any(
                    edges,
                    planned_names(initial),
                    x,
                ))
            &&& package_version_views(r) == package_version_views(initial) + auto_releases(pkgs, deps, zero)
        }
}

/// Adds, after the planned releases, a patch release of each package that
/// depends, directly or transitively, on a released package and is not
/// released itself; the dependents come in name order.
pub fn expand_with_reverse_dependencies(
    initial_releases: Vec<PackageVersion>,
    graph: &WorkspaceDependencyGraph,
    packages: &Vec<PackageInfo>,
    zero: ZeroVersionBehavior,
) -> (r: Vec<PackageVersion>)
    requires
        all_bumps_fit(packages@),
    ensures
        expands_to(initial_releases@, r@, edge_views(graph.edges@), packages@, zero),
{
    let mut names: Vec<String> = Vec::new();
    let mut i: usize = 0;
    while i < initial_releases.len()
        invariant
            i <= initial_releases.len(),
            views(names@) == planned_names(initial_releases@.take(i as int)),
        decreases initial_releases.len() - i,
    {
        push_string(&mut names, initial_releases[i].name.clone());
        proof {
            assert(planned_names(initial_releases@.take(i + 1)) =~= planned_names(initial_releases@.take(i as int)).push(
                initial_releases@[i as int].name@,
            ));
        }
        i = i + 1;
    }
    proof {
        assert(initial_releases@.take(initial_releases@.len() as int) =~= initial_releases@);
    }
    let dependents = graph.transitive_dependents_of_set(&names);
    let ghost deps = views(dependents@);
    let ghost start = package_version_views(initial_releases@);
    let mut result = initial_releases;
    let mut k: usize = 0;
    while k < dependents.len()
        invariant
            k <= dependents.len(),
            deps == views(dependents@),
            all_bumps_fit(packages@),
            package_version_views(result@) == start + auto_releases(packages@, deps.take(k as int), zero),
        decreases dependents.len() - k,
    {
        proof {
            assert(deps.take(k + 1).drop_last() =~= deps.take(k as int));
            assert(deps.take(k + 1).last() == dependents@[k as int]@);
        }
        match lookup_package(packages, dependents[k].as_str()) {
            Some(j) => {
                let pkg = &packages[j];
                let new_version = release_version(&pkg.version, BumpType::Patch, zero);
                let ghost before = result@;
                result.push(PackageVersion {
                    name: pkg.name.clone(),
                    current_version: pkg.version.clone(),
                    new_version,
                    bump_type: BumpType::Patch,
                    auto_bumped: true,
                });
                proof {
                    assert(package_version_views(result@) =~= package_version_views(before).push(auto_release(pkg@, zero)));
                }
            },
            None => {},
        }
        k = k + 1;
    }
    proof {
        assert(deps.take(deps.len() as int) =~= deps);
    }
    result
}

/// The packages whose largest pending bump is `none`, in name order.
pub fn none_bump_package_names(entries: &Vec<(String, Vec<BumpType>)>) -> (r: Vec<String>)
    ensures
        strictly_sorted(views(r@)),
        forall|n: Seq<char>|
            views(r@).contains(n) <==> exists|i: int|
                0 <= i < entries@.len() && #[trigger] entries@[i].0@ == n && max_bump_of(entries@[i].1@)
                    == Some(BumpType::NoBump),
{
    let mut r: Vec<String> = Vec::new();
    let mut i: usize = 0;
    while i < entries.len()
        invariant
            i <= entries.len(),
            strictly_sorted(views(r@)),
            forall|n: Seq<char>|
                #[trigger] views(r@).contains(n) <==> exists|j: int|
                    0 <= j < i && #[trigger] entries@[j].0@ == n && max_bump_of(entries@[j].1@) == Some(BumpType::NoBump),
        decreases entries.len() - i,
    {
        let ghost before = views(r@);
        proof {
            lemma_max_bump_of(entries@[i as int].1@);
        }
        let largest = max_bump_type(entries[i].1.as_slice());
        let is_none = match largest {
            Some(b) => b.is_noop(),
            None => false,
        };
        if is_none {
            insert_sorted(&mut r, entries[i].0.clone());
        }
        proof {
            assert forall|n: Seq<char>|
                #[trigger] views(r@).contains(n) <==> exists|j: int|
                    0 <= j < i + 1 && #[trigger] entries@[j].0@ == n && max_bump_of(entries@[j].1@) == Some(BumpType::NoBump) by {
                assert(before.contains(n) <==> exists|j: int|
                    0 <= j < i && #[trigger] entries@[j].0@ == n && max_bump_of(entries@[j].1@) == Some(BumpType::NoBump));
                if exists|j: int| 0 <= j < i + 1 && #[trigger] entries@[j].0@ == n && max_bump_of(entries@[j].1@) == Some(BumpType::NoBump) {
                    let j = choose|j: int| 0 <= j < i + 1 && #[trigger] entries@[j].0@ == n && max_bump_of(entries@[j].1@) == Some(BumpType::NoBump);
                    if j < i {
                        assert(before.contains(n));
                    }
                }
            }
        }
        i = i + 1;
    }
    r
}

/// The names that are covered: the released packages and the packages
/// bumped only by `none`.
pub open spec fn covered_names(releases: Seq<PackageVersion>, none_bump: Seq<Seq<char>>) -> Seq<Seq<char>> {
    planned_names(releases) + none_bump
}

/// Whether `(name, deps)` reports an uncovered dependent: `name` depends
/// on a covered package without being covered, and `deps` are the covered
/// packages it depends on directly.
pub open spec fn uncovered_entry(
    edges: Seq<(Seq<char>, Seq<char>)>,
    covered: Seq<Seq<char>>,
    name: Seq<char>,
    deps: Seq<Seq<char>>,
) -> bool {
    &&& !covered.contains(name)
    &&& depends_on_any(edges, covered, name)
    &&& strictly_sorted(deps)
    &&& deps.len() > 0
    &&& forall|d: Seq<char>| #[trigger] deps.contains(d) <==> (covered.contains(d) && deps_of(edges, name).contains(d))
}

/// Uncovered dependents: each package that depends on a covered package,
/// is not covered itself and depends directly on a covered package, with
/// those covered direct dependencies; in name order.
pub fn compute_uncovered_dependents(
    graph: &WorkspaceDependencyGraph,
    releases: &Vec<PackageVersion>,
    none_bump_packages: &Vec<String>,
) -> (r: Vec<(String, Vec<String>)>)
    ensures
        strictly_sorted(r@.map_values(|e: (String, Vec<String>)| e.0@)),
        forall|i: int|
            0 <= i < r@.len() ==> uncovered_entry(
                edge_views(graph.edges@),
                covered_names(releases@, views(none_bump_packages@)),
                #[trigger] r@[i].0@,
                views(r@[i].1@),
            ),
        forall|n: Seq<char>|
            (!covered_names(releases@, views(none_bump_packages@)).contains(n) && depends_on_any(
                edge_views(graph.edges@),
                covered_names(releases@, views(none_bump_packages@)),
                n,
            ) && exists|d: Seq<char>|
                covered_names(releases@, views(none_bump_packages@)).contains(d) && #[trigger] deps_of(
                    edge_views(graph.edges@),
                    n,
                ).contains(d)) ==> exists|i: int| 0 <= i < r@.len() && #[trigger] r@[i].0@ == n,
{
    let ghost edges = edge_views(graph.edges@);
    let mut covered: Vec<String> = Vec::new();
    let mut i: usize = 0;
    while i < releases.len()
        invariant
            i <= releases.len(),
            views(covered@) == planned_names(releases@.take(i as int)),
        decreases releases.len() - i,
    {
        push_string(&mut covered, releases[i].name.clone());
        proof {
            assert(planned_names(releases@.take(i + 1)) =~= planned_names(releases@.take(i as int)).push(releases@[i as int].name@));
        }
        i = i + 1;
    }
    proof {
        assert(releases@.take(releases@.len() as int) =~= releases@);
    }
    let mut j: usize = 0;
    while j < none_bump_packages.len()
        invariant
            j <= none_bump_packages.len(),
            views(covered@) == planned_names(releases@) + views(none_bump_packages@).take(j as int),
        decreases none_bump_packages.len() - j,
    {
        push_string(&mut covered, none_bump_packages[j].clone());
        proof {
            assert(views(none_bump_packages@).take(j + 1) =~= views(none_bump_packages@).take(j as int).push(none_bump_packages@[j as int]@));
        }
        j = j + 1;
    }
    proof {
        assert(views(none_bump_packages@).take(none_bump_packages@.len() as int) =~= views(none_bump_packages@));
    }
    let ghost cov = views(covered@);
    let uncovered = graph.transitive_dependents_of_set(&covered);
    let mut result: Vec<(String, Vec<String>)> = Vec::new();
    let mut k: usize = 0;
    while k < uncovered.len()
        invariant
            k <= uncovered.len(),
            cov == views(covered@),
            cov == covered_names(releases@, views(none_bump_packages@)),
            edges == edge_views(graph.edges@),
            strictly_sorted(views(uncovered@)),
            forall|x: Seq<char>|
                #[trigger] views(uncovered@).contains(x) <==> (!cov.contains(x) && depends_on_any(edges, cov, x)),
            forall|a: int| 0 <= a < result@.len() ==> uncovered_entry(edges, cov, #[trigger] result@[a].0@, views(result@[a].1@)),
            forall|a: int|
                #![trigger result@[a]]
                0 <= a < result@.len() ==> exists|b: int| 0 <= b < k && #[trigger] views(uncovered@)[b] == result@[a].0@,
            strictly_sorted(result@.map_values(|e: (String, Vec<String>)| e.0@)),
            forall|b: int|
                #![trigger views(uncovered@)[b]]
                0 <= b < k && (exists|d: Seq<char>| cov.contains(d) && #[trigger] deps_of(edges, views(uncovered@)[b]).contains(d))
                    ==> exists|a: int| 0 <= a < result@.len() && #[trigger] result@[a].0@ == views(uncovered@)[b],
        decreases uncovered.len() - k,
    {
        let name = &uncovered[k];
        proof {
            assert(views(uncovered@)[k as int] == name@);
            assert(views(uncovered@).contains(name@));
        }
        let direct = graph.direct_dependencies(name.as_str());
        let mut relevant: Vec<String> = Vec::new();
        let mut d: usize = 0;
        while d < direct.len()
            invariant
                d <= direct.len(),
                cov == views(covered@),
                strictly_sorted(views(relevant@)),
                forall|x: Seq<char>|
                    #[trigger] views(relevant@).contains(x) <==> (cov.contains(x) && views(direct@).take(d as int).contains(x)),
            decreases direct.len() - d,
        {
            let ghost before = views(relevant@);
            let is_covered = contains_str(&covered, direct[d].as_str());
            if is_covered {
                insert_sorted(&mut relevant, direct[d].clone());
            }
            proof {
                let t0 = views(direct@).take(d as int);
                assert(views(direct@).take(d + 1) =~= t0.push(direct@[d as int]@));
                crate::text::lemma_contains_push(t0, direct@[d as int]@);
                assert forall|x: Seq<char>|
                    #[trigger] views(relevant@).contains(x) <==> (cov.contains(x) && views(direct@).take(d + 1).contains(x)) by {
                    assert(before.contains(x) <==> (cov.contains(x) && t0.contains(x)));
                }
            }
            d = d + 1;
        }
        proof {
            assert(views(direct@).take(direct@.len() as int) =~= views(direct@));
        }
        let ghost before_result = result@;
        if relevant.len() > 0 {
            result.push((name.clone(), relevant));
            proof {
                let nr = result@.len() - 1;
                assert(result@[nr].0@ == name@);
                assert forall|a: int| 0 <= a < result@.len() implies uncovered_entry(edges, cov, #[trigger] result@[a].0@, views(result@[a].1@)) by {
                    if a < nr {
                        assert(result@[a] == before_result[a]);
                    }
                }
                assert forall|a: int| #![trigger result@[a]] 0 <= a < result@.len() implies exists|b: int| 0 <= b < k + 1 && #[trigger] views(uncovered@)[b] == result@[a].0@ by {
                    if a < nr {
                        assert(result@[a] == before_result[a]);
                    } else {
                        assert(views(uncovered@)[k as int] == result@[a].0@);
                    }
                }
                let names = result@.map_values(|e: (String, Vec<String>)| e.0@);
                let old_names = before_result.map_values(|e: (String, Vec<String>)| e.0@);
                assert forall|a: int, b: int| #![trigger names[a], names[b]] 0 <= a < b < names.len() implies crate::text::seq_lt(names[a], names[b]) by {
                    assert(result@[a] == before_result[a]);
                    if b < nr {
                        assert(result@[b] == before_result[b]);
                        assert(old_names[a] == names[a] && old_names[b] == names[b]);
                    } else {
                        let p = choose|p: int| 0 <= p < k && #[trigger] views(uncovered@)[p] == before_result[a].0@;
                        assert(crate::text::seq_lt(views(uncovered@)[p], views(uncovered@)[k as int]));
                    }
                }
                assert forall|b: int|
                    #![trigger views(uncovered@)[b]]
                    0 <= b < k + 1 && (exists|x: Seq<char>| cov.contains(x) && #[trigger] deps_of(edges, views(uncovered@)[b]).contains(x))
                        implies exists|a: int| 0 <= a < result@.len() && #[trigger] result@[a].0@ == views(uncovered@)[b] by {
                    if b < k {
                        let a = choose|a: int| 0 <= a < before_result.len() && #[trigger] before_result[a].0@ == views(uncovered@)[b];
                        assert(result@[a] == before_result[a]);
                    } else {
                        assert(result@[nr].0@ == views(uncovered@)[b]);
                    }
                }
            }
        } else {
            proof {
                assert forall|b: int|
                    #![trigger views(uncovered@)[b]]
                    0 <= b < k + 1 && (exists|x: Seq<char>| cov.contains(x) && #[trigger] deps_of(edges, views(uncovered@)[b]).contains(x))
                        implies exists|a: int| 0 <= a < result@.len() && #[trigger] result@[a].0@ == views(uncovered@)[b] by {
                    if b == k {
                        let x = choose|x: Seq<char>| cov.contains(x) && #[trigger] deps_of(edges, views(uncovered@)[b]).contains(x);
                        assert(views(relevant@).contains(x));
                    }
                }
            }
        }
        k = k + 1;
    }
    proof {
        let u = views(uncovered@);
        assert forall|n: Seq<char>|
            (!cov.contains(n) && depends_on_any(edges, cov, n) && exists|d: Seq<char>|
                cov.contains(d) && #[trigger] deps_of(edges, n).contains(d)) implies exists|i: int|
            0 <= i < result@.len() && #[trigger] result@[i].0@ == n by {
            assert(u.contains(n));
            let b = choose|b: int| 0 <= b < u.len() && u[b] == n;
            let x = choose|x: Seq<char>| cov.contains(x) && #[trigger] deps_of(edges, n).contains(x);
            assert(deps_of(edges, u[b]).contains(x));
        }
    }
    result
}

/// The (path, version) pairs of the changesets that a pre-release
/// consumed, in order: `marks[i]` is the version `paths[i]` was consumed
/// for, if any.
pub open spec fn consumed_spec(paths: Seq<Seq<char>>, marks: Seq<Option<Seq<char>>>) -> Seq<(Seq<char>, Seq<char>)>
    decreases paths.len(),
{
    if paths.len() == 0 || marks.len() != paths.len() {
        Seq::empty()
    } else {
        let prev = consumed_spec(paths.drop_last(), marks.drop_last());
        match marks.last() {
            Some(v) => prev.push((paths.last(), v)),
            None => prev,
        }
    }
}

pub open spec fn pair_views(v: Seq<(String, String)>) -> Seq<(Seq<char>, Seq<char>)> {
    v.map_values(|p: (String, String)| (p.0@, p.1@))
}

/// The consumed marks of changesets.
pub open spec fn consumed_marks(cs: Seq<Changeset>) -> Seq<Option<Seq<char>>> {
    cs.map_values(|c: Changeset| crate::model::opt_view(c.consumed_for_prerelease))
}

/// Keeps, in order, each path whose changeset a pre-release consumed, with
/// the version it was consumed for.
pub fn consumed_entries(paths: &Vec<String>, changesets: &Vec<Changeset>) -> (r: Vec<(String, String)>)
    requires
        paths@.len() == changesets@.len(),
    ensures
        pair_views(r@) == consumed_spec(views(paths@), consumed_marks(changesets@)),
{
    let mut consumed: Vec<(String, String)> = Vec::new();
    let mut i: usize = 0;
    while i < paths.len()
        invariant
            i <= paths.len(),
            paths@.len() == changesets@.len(),
            pair_views(consumed@) == consumed_spec(views(paths@).take(i as int), consumed_marks(changesets@).take(i as int)),
        decreases paths.len() - i,
    {
        proof {
            assert(views(paths@).take(i + 1).drop_last() =~= views(paths@).take(i as int));
            assert(consumed_marks(changesets@).take(i + 1).drop_last() =~= consumed_marks(changesets@).take(i as int));
            assert(views(paths@).take(i + 1).last() == paths@[i as int]@);
            assert(consumed_marks(changesets@).take(i + 1).last() == crate::model::opt_view(
                changesets@[i as int].consumed_for_prerelease,
            ));
        }
        let ghost before = consumed@;
        match &changesets[i].consumed_for_prerelease {
            Some(version) => {
                consumed.push((paths[i].clone(), version.clone()));
                proof {
                    assert(pair_views(consumed@) =~= pair_views(before).push((paths@[i as int]@, version@)));
                }
            },
            None => {},
        }
        i = i + 1;
    }
    proof {
        assert(views(paths@).take(paths@.len() as int) =~= views(paths@));
        assert(consumed_marks(changesets@).take(paths@.len() as int) =~= consumed_marks(changesets@));
    }
    consumed
}

/// The changesets among `paths` that a pre-release consumed, with the
/// version they were consumed for: each listed file is read, in order,
/// and [`consumed_entries`] keeps the consumed ones.
pub fn collect_consumed_changesets<R: ChangesetReader>(reader: &R, paths: &Vec<String>) -> (r: Result<Vec<(String, String)>>)
    ensures
        r matches Ok(v) ==> exists|cs: Seq<Changeset>|
            cs.len() == paths@.len() && #[trigger] consumed_spec(views(paths@), consumed_marks(cs)) == pair_views(v@),
        paths@.len() == 0 ==> (r matches Ok(v) && v@.len() == 0),
{
    let mut changesets: Vec<Changeset> = Vec::new();
    let mut i: usize = 0;
    while i < paths.len()
        invariant
            i <= paths.len(),
            changesets@.len() == i,
        decreases paths.len() - i,
    {
        let changeset = reader.read_changeset(paths[i].as_str())?;
        changesets.push(changeset);
        i = i + 1;
    }
    let consumed = consumed_entries(paths, &changesets);
    proof {
        if paths@.len() == 0 {
            assert(consumed_spec(views(paths@), consumed_marks(changesets@)) =~= Seq::empty());
        }
    }
    Ok(consumed)
}

/// The packages whose manifest inherits its version from the workspace,
/// in project order.
pub fn find_packages_with_inherited_versions<I: InheritedVersionChecker>(checker: &I, packages: &Vec<PackageInfo>) -> (r: Result<Vec<String>>)
    ensures
        r matches Ok(v) ==> v@.len() <= packages@.len() && forall|i: int|
            0 <= i < v@.len() ==> crate::model::package_names(packages@).contains(#[trigger] v@[i]@),
        packages@.len() == 0 ==> (r matches Ok(v) && v@.len() == 0),
{
    let mut names: Vec<String> = Vec::new();
    let mut i: usize = 0;
    while i < packages.len()
        invariant
            i <= packages.len(),
            names@.len() <= i,
            forall|k: int| 0 <= k < names@.len() ==> crate::model::package_names(packages@).contains(#[trigger] names@[k]@),
        decreases packages.len() - i,
    {
        let manifest = path_join(packages[i].path.as_str(), "Cargo.toml");
        if checker.has_inherited_version(manifest.as_str())? {
            names.push(packages[i].name.clone());
            proof {
                assert(crate::model::package_names(packages@)[i as int] == packages@[i as int].name@);
            }
        }
        i = i + 1;
    }
    Ok(names)
}

/// What `status` reports.
pub struct StatusOutput {
    /// The pending changesets.
    pub changesets: Vec<Changeset>,
    /// Their files.
    pub changeset_files: Vec<String>,
    /// The releases a release would make now, with the automatic ones.
    pub projected_releases: Vec<PackageVersion>,
    /// The bumps each package gets, in order of first mention.
    pub bumps_by_package: IndexMap<String, Vec<BumpType>>,
    /// Packages whose largest pending bump is `none`, in name order.
    pub none_bump_packages: Vec<String>,
    /// Packages with no pending changeset.
    pub unchanged_packages: Vec<PackageInfo>,
    /// Packages whose manifest inherits the workspace version.
    pub packages_with_inherited_versions: Vec<String>,
    /// Names in changesets that are not packages of the project.
    pub unknown_packages: Vec<String>,
    /// Changesets consumed by a pre-release, with the version.
    pub consumed_prerelease_changesets: Vec<(String, String)>,
    /// Dependents of released packages that no changeset covers, with the
    /// covered packages they depend on.
    pub uncovered_dependents: Vec<(String, Vec<String>)>,
}

/// The status of a project with packages `pkgs` and dependency edges
/// `edges`, computed from the changesets it reports: the bumps per package,
/// the packages whose largest bump is `none`, the projected releases (the
/// plan of the changesets, then the dependents it causes), the names that
/// are no package, the packages no changeset names, and the uncovered
/// dependents.
pub open spec fn status_consistent(
    pkgs: Seq<PackageInfo>,
    zero: ZeroVersionBehavior,
    edges: Seq<(Seq<char>, Seq<char>)>,
    out: StatusOutput,
) -> bool {
    let rs = crate::none_bump::flat_releases(crate::model::changeset_views(out.changesets@));
    let entries = crate::planner::bump_map_entries(out.bumps_by_package);
    let plan = crate::planner::plan_spec(crate::planner::aggregate_spec(rs), pkgs, Some(zero));
    let covered = covered_names(out.projected_releases@, views(out.none_bump_packages@));
    &&& out.changesets@.len() == out.changeset_files@.len()
    &&& entries == crate::planner::aggregate_spec(rs)
    &&& strictly_sorted(views(out.none_bump_packages@))
    &&& forall|n: Seq<char>|
        views(out.none_bump_packages@).contains(n) <==> exists|i: int|
            0 <= i < entries.len() && #[trigger] entries[i].0 == n && max_bump_of(entries[i].1) == Some(BumpType::NoBump)
    &&& views(out.unknown_packages@) == plan.1
    &&& exists|initial: Seq<PackageVersion>|
        #[trigger] package_version_views(initial) == plan.0 && expands_to(initial, out.projected_releases@, edges, pkgs, zero)
    &&& out.unchanged_packages@ == pkgs.filter(|p: PackageInfo| !crate::none_bump::names_package(rs, p.name@))
    &&& strictly_sorted(out.uncovered_dependents@.map_values(|e: (String, Vec<String>)| e.0@))
    &&& forall|i: int|
        0 <= i < out.uncovered_dependents@.len() ==> uncovered_entry(
            edges,
            covered,
            #[trigger] out.uncovered_dependents@[i].0@,
            views(out.uncovered_dependents@[i].1@),
        )
}

/// Builds the status from what was read: the project, the changeset files
/// and their changesets, the consumed changesets, the dependency graph and
/// the packages with inherited versions. Fails with `VersionOverflow`
/// exactly when some package version cannot take every bump.
pub fn status_from(
    project: &CargoProject,
    zero: ZeroVersionBehavior,
    changeset_files: Vec<String>,
    changesets: Vec<Changeset>,
    consumed_prerelease_changesets: Vec<(String, String)>,
    graph: &WorkspaceDependencyGraph,
    packages_with_inherited_versions: Vec<String>,
) -> (r: Result<StatusOutput>)
    requires
        changesets@.len() == changeset_files@.len(),
    ensures
        r is Err <==> !all_bumps_fit(project.packages@),
        r matches Err(e) ==> e is VersionOverflow,
        r matches Ok(out) ==> {
            &&& status_consistent(project.packages@, zero, edge_views(graph.edges@), out)
            &&& out.changesets == changesets
            &&& out.changeset_files == changeset_files
            &&& out.consumed_prerelease_changesets == consumed_prerelease_changesets
            &&& out.packages_with_inherited_versions == packages_with_inherited_versions
        },
{
    let bumps_by_package = VersionPlanner::aggregate_bumps(&changesets);
    if !bumps_fit(&project.packages) {
        return Err(OperationError::VersionOverflow);
    }
    let plan = VersionPlanner::plan_releases_with_behavior(&changesets, &project.packages, zero);
    let ghost initial = plan.releases@;
    let unknown_packages = plan.unknown_packages;
    let projected_releases = expand_with_reverse_dependencies(plan.releases, graph, &project.packages, zero);
    let (_, unchanged_packages) = VersionPlanner::partition_packages(&changesets, &project.packages);
    let entries = bump_map_to_vec(&bumps_by_package);
    let none_bump_packages = none_bump_package_names(&entries);
    proof {
        assert forall|k: int| 0 <= k < entries@.len() implies #[trigger] entries@[k].0@ == entry_views(entries@)[k].0 && entries@[k].1@ == entry_views(entries@)[k].1 by {
        }
    }
    let uncovered_dependents = compute_uncovered_dependents(graph, &projected_releases, &none_bump_packages);
    let out = StatusOutput {
        changesets,
        changeset_files,
        projected_releases,
        bumps_by_package,
        none_bump_packages,
        unchanged_packages,
        packages_with_inherited_versions,
        unknown_packages,
        consumed_prerelease_changesets,
        uncovered_dependents,
    };
    proof {
        assert(package_version_views(initial) == crate::planner::plan_spec(
            crate::planner::aggregate_spec(crate::none_bump::flat_releases(crate::model::changeset_views(out.changesets@))),
            project.packages@,
            Some(zero),
        ).0);
    }
    Ok(out)
}

/// Reports the pending changesets and what a release would do with them.
pub struct StatusOperation<P, R, I> {
    project_provider: P,
    changeset_reader: R,
    inherited_checker: I,
}

impl<P: ProjectProvider + DependencyGraphProvider, R: ChangesetReader, I: InheritedVersionChecker> StatusOperation<P, R, I> {
    pub closed spec fn parts(&self) -> (P, R, I) {
        (self.project_provider, self.changeset_reader, self.inherited_checker)
    }

    pub fn new(project_provider: P, changeset_reader: R, inherited_checker: I) -> (r: Self)
        ensures
            r.parts() == (project_provider, changeset_reader, inherited_checker),
    {
        StatusOperation { project_provider, changeset_reader, inherited_checker }
    }

    /// Reads the pending changesets and plans the release they ask for;
    /// fails with `VersionOverflow` if a package version cannot be bumped.
    pub fn execute(&self, start_path: &str) -> (r: Result<StatusOutput>)
        ensures
            r matches Ok(out) ==> exists|pkgs: Seq<PackageInfo>, zero: ZeroVersionBehavior, edges: Seq<(Seq<char>, Seq<char>)>|
                #[trigger] status_consistent(pkgs, zero, edges, out),
    {
        let project = self.project_provider.discover_project(start_path)?;
        let (root_config, _) = self.project_provider.load_configs(&project)?;
        let changeset_dir = path_join(project.root.as_str(), root_config.changeset_dir.as_str());
        let changeset_files = self.changeset_reader.list_changesets(changeset_dir.as_str())?;
        let mut changesets: Vec<Changeset> = Vec::new();
        let mut i: usize = 0;
        while i < changeset_files.len()
            invariant
                i <= changeset_files.len(),
                changesets@.len() == i,
            decreases changeset_files.len() - i,
        {
            let changeset = self.changeset_reader.read_changeset(changeset_files[i].as_str())?;
            changesets.push(changeset);
            i = i + 1;
        }
        let consumed_paths = self.changeset_reader.list_consumed_changesets(changeset_dir.as_str())?;
        let consumed_prerelease_changesets = collect_consumed_changesets(&self.changeset_reader, &consumed_paths)?;
        if !bumps_fit(&project.packages) {
            return Err(OperationError::VersionOverflow);
        }
        let graph = self.project_provider.build_dependency_graph(&project)?;
        let packages_with_inherited_versions = find_packages_with_inherited_versions(
            &self.inherited_checker,
            &project.packages,
        )?;
        let out = status_from(
            &project,
            root_config.zero_version_behavior,
            changeset_files,
            changesets,
            consumed_prerelease_changesets,
            &graph,
            packages_with_inherited_versions,
        )?;
        proof {
            assert(status_consistent(project.packages@, root_config.zero_version_behavior, edge_views(graph.edges@), out));
        }
        Ok(out)
    }
}

proof fn lemma_auto_releases_shape(pkgs: Seq<PackageInfo>, names: Seq<Seq<char>>, zero: ZeroVersionBehavior)
    ensures
        auto_releases(pkgs, names, zero).len() <= names.len(),
        forall|k: int|
            0 <= k < auto_releases(pkgs, names, zero).len() ==> (#[trigger] auto_releases(pkgs, names, zero)[k]).auto_bumped
                && auto_releases(pkgs, names, zero)[k].bump_type == BumpType::Patch && names.contains(
                auto_releases(pkgs, names, zero)[k].name,
            ),
    decreases names.len(),
{
    if names.len() > 0 {
        lemma_auto_releases_shape(pkgs, names.drop_last(), zero);
        let prev = auto_releases(pkgs, names.drop_last(), zero);
        crate::add::lemma_first_package_name_pub(pkgs, names.last());
        assert forall|k: int| 0 <= k < auto_releases(pkgs, names, zero).len() implies (#[trigger] auto_releases(
            pkgs,
            names,
            zero,
        )[k]).auto_bumped && auto_releases(pkgs, names, zero)[k].bump_type == BumpType::Patch && names.contains(
            auto_releases(pkgs, names, zero)[k].name,
        ) by {
            if k < prev.len() {
                let j = choose|j: int| 0 <= j < names.drop_last().len() && names.drop_last()[j] == prev[k].name;
                assert(names[j] == prev[k].name);
            } else {
                assert(names[names.len() - 1] == names.last());
            }
        }
    }
}

/// A release keeps the packages it plans, in their order and with their
/// versions, and the packages it adds for their dependencies are patch
/// releases, marked automatic, of packages it did not plan.
pub proof fn law_expansion_keeps_planned(
    initial: Seq<PackageVersion>,
    r: Seq<PackageVersion>,
    edges: Seq<(Seq<char>, Seq<char>)>,
    pkgs: Seq<PackageInfo>,
    zero: ZeroVersionBehavior,
)
    requires
        expands_to(initial, r, edges, pkgs, zero),
    ensures
        r.len() >= initial.len(),
        package_version_views(r).take(initial.len() as int) == package_version_views(initial),
        forall|k: int|
            initial.len() <= k < r.len() ==> (#[trigger] package_version_views(r)[k]).auto_bumped && package_version_views(
                r,
            )[k].bump_type == BumpType::Patch && !planned_names(initial).contains(package_version_views(r)[k].name),
{
    let deps = choose|deps: Seq<Seq<char>>|
        {
            &&& strictly_sorted(deps)
            &&& forall|x: Seq<char>|
                #[trigger] deps.contains(x) <==> (!planned_names(initial).contains(x) && depends_on_any(
                    edges,
                    planned_names(initial),
                    x,
                ))
            &&& package_version_views(r) == package_version_views(initial) + auto_releases(pkgs, deps, zero)
        };
    lemma_auto_releases_shape(pkgs, deps, zero);
    assert(package_version_views(r).len() == r.len());
    assert(package_version_views(initial).len() == initial.len());
    assert(package_version_views(r).take(initial.len() as int) =~= package_version_views(initial));
    assert forall|k: int| initial.len() <= k < r.len() implies (#[trigger] package_version_views(r)[k]).auto_bumped
        && package_version_views(r)[k].bump_type == BumpType::Patch && !planned_names(initial).contains(
        package_version_views(r)[k].name,
    ) by {
        let a = package_version_views(initial);
        let b = auto_releases(pkgs, deps, zero);
        assert(a.len() == initial.len());
        assert(package_version_views(r).len() == r.len());
        assert(package_version_views(r)[k] == (a + b)[k]);
        assert((a + b)[k] == b[k - a.len()]);
    }
}

proof fn lemma_no_edges_no_reach(seeds: Seq<Seq<char>>, x: Seq<char>, n: nat)
    ensures
        !reaches(Seq::<(Seq<char>, Seq<char>)>::empty(), seeds, x, n),
{
}

/// Without dependency edges a release adds no package for its dependencies.
pub proof fn law_no_edges_no_auto_bump(
    initial: Seq<PackageVersion>,
    r: Seq<PackageVersion>,
    pkgs: Seq<PackageInfo>,
    zero: ZeroVersionBehavior,
)
    requires
        expands_to(initial, r, Seq::<(Seq<char>, Seq<char>)>::empty(), pkgs, zero),
    ensures
        package_version_views(r) == package_version_views(initial),
{
    let edges = Seq::<(Seq<char>, Seq<char>)>::empty();
    let deps = choose|deps: Seq<Seq<char>>|
        {
            &&& strictly_sorted(deps)
            &&& forall|x: Seq<char>|
                #[trigger] deps.contains(x) <==> (!planned_names(initial).contains(x) && depends_on_any(
                    edges,
                    planned_names(initial),
                    x,
                ))
            &&& package_version_views(r) == package_version_views(initial) + auto_releases(pkgs, deps, zero)
        };
    if deps.len() > 0 {
        assert(deps.contains(deps[0]));
        let n = choose|n: nat| reaches(edges, planned_names(initial), deps[0], n);
        lemma_no_edges_no_reach(planned_names(initial), deps[0], n);
    }
    assert(auto_releases(pkgs, deps, zero) =~= Seq::<PackageVersionView>::empty());
    assert(package_version_views(r) =~= package_version_views(initial));
}

} // verus!

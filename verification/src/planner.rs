//! Planning versions from changesets: the bumps each package asks for, the
//! version each package is released at, and the packages left unchanged.
use vstd::prelude::*;

use indexmap::IndexMap;

use crate::model::{
    changeset_views, package_names, Changeset, ChangesetView, PackageInfo, PackageInfoView, PackageVersion,
    PackageVersionView, package_version_views,
};
use crate::none_bump::flat_releases;
use crate::text::{contains_str, insert_sorted, lemma_contains_push, strictly_sorted, views};
use crate::validator::first_package;
use crate::config::ZeroVersionBehavior;
use crate::name_map::NameMap;
use crate::validator::PackageReleaseConfig;
use crate::version::Version;
use crate::versioning::{next_version, next_version_fits, next_version_spec};
use crate::version::{VersionView, release_version_spec, bump_fits, bump_spec, bump_version, max_bump_of, max_bump_type, lemma_max_bump_of, BumpType};

verus! {

/// Declares `indexmap::IndexMap`, the insertion-ordered map of the bumps per package.
#[verifier::external_type_specification]
#[verifier::external_body]
#[verifier::reject_recursive_types(K)]
#[verifier::reject_recursive_types(V)]
#[verifier::reject_recursive_types(S)]
pub struct ExIndexMap<K, V, S>(IndexMap<K, V, S>);

/// The entries of a map of bumps, in the map's order.
pub uninterp spec fn bump_map_entries(m: IndexMap<String, Vec<BumpType>>) -> Seq<(Seq<char>, Seq<BumpType>)>;

/// Adding one bump for a package to a list of (package, bumps) entries:
/// appended to the package's entry when it has one, else a new entry at the end.
pub open spec fn push_bump_spec(e: Seq<(Seq<char>, Seq<BumpType>)>, name: Seq<char>, bump: BumpType) -> Seq<(Seq<char>, Seq<BumpType>)> {
    if exists|i: int| 0 <= i < e.len() && e[i].0 == name {
        let i = choose|i: int| 0 <= i < e.len() && e[i].0 == name;
        e.update(i, (name, e[i].1.push(bump)))
    } else {
        e.push((name, seq![bump]))
    }
}

/// Some entry is for the package.
pub open spec fn has_key(e: Seq<(Seq<char>, Seq<BumpType>)>, n: Seq<char>) -> bool {
    exists|i: int| 0 <= i < e.len() && e[i].0 == n
}

/// No package has two entries.
pub open spec fn keys_unique(e: Seq<(Seq<char>, Seq<BumpType>)>) -> bool {
    forall|i: int, j: int| 0 <= i < e.len() && 0 <= j < e.len() && i != j ==> e[i].0 != e[j].0
}

/// Calls `IndexMap::new`: the map starts with no entries.
#[verifier::external_body]
fn bump_map_new() -> (m: IndexMap<String, Vec<BumpType>>)
    ensures
        bump_map_entries(m) == Seq::<(Seq<char>, Seq<BumpType>)>::empty(),
{
    IndexMap::new()
}

/// Calls `IndexMap::entry` and `Entry::or_default` and pushes the bump onto
/// the entry's list: an occupied entry keeps its position, a vacant one is
/// inserted at the end with an empty list.
#[verifier::external_body]
fn bump_map_push(m: &mut IndexMap<String, Vec<BumpType>>, name: String, bump: BumpType)
    ensures
        bump_map_entries(*final(m)) == push_bump_spec(bump_map_entries(*old(m)), name@, bump),
{
    m.entry(name).or_default().push(bump);
}

/// Calls `IndexMap::iter` and copies the entries out in the map's order.
#[verifier::external_body]
pub(crate) fn bump_map_to_vec(m: &IndexMap<String, Vec<BumpType>>) -> (r: Vec<(String, Vec<BumpType>)>)
    ensures
        entry_views(r@) == bump_map_entries(*m),
{
    m.iter().map(|(k, v)| (k.clone(), v.clone())).collect()
}

pub open spec fn entry_views(s: Seq<(String, Vec<BumpType>)>) -> Seq<(Seq<char>, Seq<BumpType>)> {
    s.map_values(|p: (String, Vec<BumpType>)| (p.0@, p.1@))
}

/// The (package, bumps) entries of a list of releases, in first-mention order.
pub open spec fn aggregate_spec(rs: Seq<(Seq<char>, BumpType)>) -> Seq<(Seq<char>, Seq<BumpType>)>
    decreases rs.len(),
{
    if rs.len() == 0 {
        Seq::empty()
    } else {
        push_bump_spec(aggregate_spec(rs.drop_last()), rs.last().0, rs.last().1)
    }
}

pub proof fn lemma_push_bump_keeps_keys_unique(e: Seq<(Seq<char>, Seq<BumpType>)>, name: Seq<char>, bump: BumpType)
    requires
        keys_unique(e),
    ensures
        keys_unique(push_bump_spec(e, name, bump)),
        forall|n: Seq<char>| #[trigger] has_key(push_bump_spec(e, name, bump), n) <==> (has_key(e, n) || n == name),
{
    let r = push_bump_spec(e, name, bump);
    if exists|i: int| 0 <= i < e.len() && e[i].0 == name {
        let i = choose|i: int| 0 <= i < e.len() && e[i].0 == name;
        assert forall|n: Seq<char>| #[trigger] has_key(r, n) <==> (has_key(e, n) || n == name) by {
            if exists|j: int| 0 <= j < e.len() && e[j].0 == n {
                let j = choose|j: int| 0 <= j < e.len() && e[j].0 == n;
                assert(r[j].0 == n);
            }
            if n == name {
                assert(r[i].0 == n);
            }
            if exists|j: int| 0 <= j < r.len() && r[j].0 == n {
                let j = choose|j: int| 0 <= j < r.len() && r[j].0 == n;
                assert(e[j].0 == n);
            }
        }
    } else {
        assert forall|n: Seq<char>| #[trigger] has_key(r, n) <==> (has_key(e, n) || n == name) by {
            if exists|j: int| 0 <= j < e.len() && e[j].0 == n {
                let j = choose|j: int| 0 <= j < e.len() && e[j].0 == n;
                assert(r[j].0 == n);
            }
            if n == name {
                assert(r[e.len() as int].0 == n);
            }
            if exists|j: int| 0 <= j < r.len() && r[j].0 == n {
                let j = choose|j: int| 0 <= j < r.len() && r[j].0 == n;
                if j < e.len() {
                    assert(e[j].0 == n);
                }
            }
        }
    }
}

/// Each package's entry lists exactly its bumps, and every entry has one.
pub proof fn lemma_aggregate_keys_unique(rs: Seq<(Seq<char>, BumpType)>)
    ensures
        keys_unique(aggregate_spec(rs)),
        forall|i: int| 0 <= i < aggregate_spec(rs).len() ==> (#[trigger] aggregate_spec(rs)[i]).1.len() > 0,
    decreases rs.len(),
{
    if rs.len() > 0 {
        lemma_aggregate_keys_unique(rs.drop_last());
        lemma_push_bump_keeps_keys_unique(aggregate_spec(rs.drop_last()), rs.last().0, rs.last().1);
        let e = aggregate_spec(rs.drop_last());
        let r = aggregate_spec(rs);
        assert forall|i: int| 0 <= i < r.len() implies (#[trigger] r[i]).1.len() > 0 by {
            if i < e.len() {
                assert(e[i].1.len() > 0);
            }
        }
    }
}

/// The version planned for one package.
#[derive(Debug)]
pub struct ReleasePlan {
    /// Calculated package versions for release.
    pub releases: Vec<PackageVersion>,
    /// Packages referenced in changesets but not found in the project.
    pub unknown_packages: Vec<String>,
}

impl ReleasePlan {
    pub fn releases(&self) -> (r: &Vec<PackageVersion>)
        ensures
            r == &self.releases,
    {
        &self.releases
    }

    pub fn unknown_packages(&self) -> (r: &Vec<String>)
        ensures
            r == &self.unknown_packages,
    {
        &self.unknown_packages
    }
}

/// Every package version can take any bump.
pub open spec fn all_bumps_fit(pkgs: Seq<PackageInfo>) -> bool {
    forall|i: int| 0 <= i < pkgs.len() ==> #[trigger] pkgs[i].version.major < u64::MAX && pkgs[i].version.minor < u64::MAX && pkgs[i].version.patch < u64::MAX
}

/// The version a package is released at with the given bump: without a
/// zero-version behavior the bump applies as it is; with one, as
/// [`release_version_spec`] says.
pub open spec fn bumped_version(v: VersionView, bump: BumpType, zero: Option<ZeroVersionBehavior>) -> VersionView {
    match zero {
        Some(z) => release_version_spec(v, bump, z),
        None => bump_spec(v, bump),
    }
}

/// The planned version of a package released with the given bumps.
pub open spec fn planned_version(p: PackageInfoView, bumps: Seq<BumpType>, zero: Option<ZeroVersionBehavior>) -> PackageVersionView {
    PackageVersionView {
        name: p.name,
        current_version: p.version,
        new_version: bumped_version(p.version, max_bump_of(bumps)->0, zero),
        bump_type: max_bump_of(bumps)->0,
        auto_bumped: false,
    }
}

/// The releases and unknown packages of a list of (package, bumps)
/// entries: an entry whose largest bump is `none` is left out; each other
/// entry with bumps whose package exists is released with the largest of
/// its bumps; the others are reported as unknown.
pub open spec fn plan_spec(e: Seq<(Seq<char>, Seq<BumpType>)>, pkgs: Seq<PackageInfo>, zero: Option<ZeroVersionBehavior>) -> (Seq<PackageVersionView>, Seq<Seq<char>>)
    decreases e.len(),
{
    if e.len() == 0 {
        (Seq::empty(), Seq::empty())
    } else {
        let prev = plan_spec(e.drop_last(), pkgs, zero);
        let (name, bumps) = e.last();
        if bumps.len() == 0 || max_bump_of(bumps) == Some(BumpType::NoBump) {
            prev
        } else {
            match first_package(pkgs, name) {
                Some(p) => (prev.0.push(planned_version(p, bumps, zero)), prev.1),
                None => (prev.0, prev.1.push(name)),
            }
        }
    }
}

proof fn lemma_first_package_in(pkgs: Seq<PackageInfo>, name: Seq<char>)
    ensures
        first_package(pkgs, name) matches Some(p) ==> exists|i: int| 0 <= i < pkgs.len() && pkgs[i]@ == p,
    decreases pkgs.len(),
{
    if pkgs.len() > 0 && pkgs[0].name@ != name {
        lemma_first_package_in(pkgs.drop_first(), name);
        if first_package(pkgs, name) is Some {
            let i = choose|i: int| 0 <= i < pkgs.drop_first().len() && pkgs.drop_first()[i]@ == first_package(pkgs, name)->0;
            assert(pkgs[i + 1]@ == first_package(pkgs, name)->0);
        }
    }
}

pub struct VersionPlanner;

impl VersionPlanner {
    /// The bumps that the changesets ask for, per package, in order of first mention.
    pub fn aggregate_bumps(changesets: &Vec<Changeset>) -> (r: IndexMap<String, Vec<BumpType>>)
        ensures
            bump_map_entries(r) == aggregate_spec(flat_releases(changeset_views(changesets@))),
    {
        let ghost cs = changeset_views(changesets@);
        let mut map = bump_map_new();
        let mut i: usize = 0;
        while i < changesets.len()
            invariant
                i <= changesets.len(),
                cs == changeset_views(changesets@),
                bump_map_entries(map) == aggregate_spec(flat_releases(cs.take(i as int))),
            decreases changesets.len() - i,
        {
            let releases = &changesets[i].releases;
            let ghost prefix = flat_releases(cs.take(i as int));
            let mut j: usize = 0;
            while j < releases.len()
                invariant
                    j <= releases.len(),
                    releases@ == changesets@[i as int].releases@,
                    bump_map_entries(map) == aggregate_spec(prefix + crate::model::release_views(releases@).take(j as int)),
                decreases releases.len() - j,
            {
                proof {
                    let next = prefix + crate::model::release_views(releases@).take(j + 1);
                    assert(next.drop_last() =~= prefix + crate::model::release_views(releases@).take(j as int));
                    assert(next.last() == releases@[j as int]@);
                }
                bump_map_push(&mut map, releases[j].name.clone(), releases[j].bump_type);
                j = j + 1;
            }
            proof {
                assert(cs.take(i + 1).drop_last() =~= cs.take(i as int));
                assert(cs.take(i + 1).last() == changesets@[i as int]@);
                assert(crate::model::release_views(releases@).take(releases.len() as int) =~= crate::model::release_views(releases@));
                assert(flat_releases(cs.take(i + 1)) =~= prefix + crate::model::release_views(releases@));
            }
            i = i + 1;
        }
        proof {
            assert(cs.take(changesets.len() as int) =~= cs);
        }
        map
    }

    /// Plans the releases of a list of (package, bumps) entries as [`plan_spec`] describes.
    pub fn plan_from_bumps(
        entries: &Vec<(String, Vec<BumpType>)>,
        packages: &Vec<PackageInfo>,
        zero: Option<ZeroVersionBehavior>,
    ) -> (r: ReleasePlan)
        requires
            all_bumps_fit(packages@),
        ensures
            package_version_views(r.releases@) == plan_spec(entry_views(entries@), packages@, zero).0,
            views(r.unknown_packages@) == plan_spec(entry_views(entries@), packages@, zero).1,
    {
        let mut releases: Vec<PackageVersion> = Vec::new();
        let mut unknown: Vec<String> = Vec::new();
        let mut i: usize = 0;
        while i < entries.len()
            invariant
                i <= entries.len(),
                all_bumps_fit(packages@),
                package_version_views(releases@) == plan_spec(entry_views(entries@).take(i as int), packages@, zero).0,
                views(unknown@) == plan_spec(entry_views(entries@).take(i as int), packages@, zero).1,
            decreases entries.len() - i,
        {
            proof {
                assert(entry_views(entries@).take(i + 1).drop_last() =~= entry_views(entries@).take(i as int));
                assert(entry_views(entries@).take(i + 1).last() == (entries@[i as int].0@, entries@[i as int].1@));
            }
            let (name, bumps) = (&entries[i].0, &entries[i].1);
            match max_bump_type(bumps.as_slice()) {
                None => {
                    proof {
                        lemma_max_bump_of(bumps@);
                    }
                },
                Some(BumpType::NoBump) => {
                    proof {
                        lemma_max_bump_of(bumps@);
                    }
                },
                Some(bump_type) => {
                    proof {
                        lemma_max_bump_of(bumps@);
                    }
                    match crate::validator::lookup_package(packages, name.as_str()) {
                        Some(k) => {
                            let pkg = &packages[k];
                            let new_version = match zero {
                                Some(z) => crate::version::release_version(&pkg.version, bump_type, z),
                                None => bump_version(&pkg.version, bump_type),
                            };
                            let ghost before = releases@;
                            releases.push(PackageVersion {
                                name: name.clone(),
                                current_version: pkg.version.clone(),
                                new_version,
                                bump_type,
                                auto_bumped: false,
                            });
                            proof {
                                assert(package_version_views(releases@) =~= package_version_views(before).push(planned_version(pkg@, bumps@, zero)));
                            }
                        },
                        None => {
                            crate::text::push_string(&mut unknown, name.clone());
                        },
                    }
                },
            }
            i = i + 1;
        }
        proof {
            assert(entry_views(entries@).take(entries.len() as int) =~= entry_views(entries@));
        }
        ReleasePlan { releases, unknown_packages: unknown }
    }

    /// Plans the releases that the changesets ask for.
    pub fn plan_releases(changesets: &Vec<Changeset>, packages: &Vec<PackageInfo>) -> (r: ReleasePlan)
        requires
            all_bumps_fit(packages@),
        ensures
            package_version_views(r.releases@) == plan_spec(aggregate_spec(flat_releases(changeset_views(changesets@))), packages@, None).0,
            views(r.unknown_packages@) == plan_spec(aggregate_spec(flat_releases(changeset_views(changesets@))), packages@, None).1,
    {
        let bumps = Self::aggregate_bumps(changesets);
        let entries = bump_map_to_vec(&bumps);
        Self::plan_from_bumps(&entries, packages, None)
    }

    /// Plans the releases that the changesets ask for, with a `0.x` major
    /// bump and a pre-release version treated as `zero` and
    /// [`release_version_spec`] say.
    pub fn plan_releases_with_behavior(
        changesets: &Vec<Changeset>,
        packages: &Vec<PackageInfo>,
        zero: ZeroVersionBehavior,
    ) -> (r: ReleasePlan)
        requires
            all_bumps_fit(packages@),
        ensures
            package_version_views(r.releases@) == plan_spec(aggregate_spec(flat_releases(changeset_views(changesets@))), packages@, Some(zero)).0,
            views(r.unknown_packages@) == plan_spec(aggregate_spec(flat_releases(changeset_views(changesets@))), packages@, Some(zero)).1,
    {
        let bumps = Self::aggregate_bumps(changesets);
        let entries = bump_map_to_vec(&bumps);
        Self::plan_from_bumps(&entries, packages, Some(zero))
    }

    /// The packages the changesets name, in name order, and the packages of
    /// the project that no changeset names, in project order.
    pub fn partition_packages(changesets: &Vec<Changeset>, packages: &Vec<PackageInfo>) -> (r: (Vec<String>, Vec<PackageInfo>))
        ensures
            strictly_sorted(views(r.0@)),
            forall|n: Seq<char>| views(r.0@).contains(n) <==> crate::none_bump::names_package(flat_releases(changeset_views(changesets@)), n),
            r.1@ == packages@.filter(|p: PackageInfo| !crate::none_bump::names_package(flat_releases(changeset_views(changesets@)), p.name@)),
    {
        let ghost rs = flat_releases(changeset_views(changesets@));
        let named = named_packages(changesets);
        let mut unchanged: Vec<PackageInfo> = Vec::new();
        let ghost pred = |p: PackageInfo| !crate::none_bump::names_package(rs, p.name@);
        let mut i: usize = 0;
        while i < packages.len()
            invariant
                i <= packages.len(),
                forall|n: Seq<char>| views(named@).contains(n) <==> crate::none_bump::names_package(rs, n),
                pred == (|p: PackageInfo| !crate::none_bump::names_package(rs, p.name@)),
                unchanged@ == packages@.take(i as int).filter(pred),
            decreases packages.len() - i,
        {
            proof {
                assert(packages@.take(i + 1) =~= packages@.take(i as int).push(packages@[i as int]));
                packages@.take(i as int).lemma_filter_push(packages@[i as int], pred);
            }
            if !contains_str(&named, packages[i].name.as_str()) {
                unchanged.push(packages[i].clone());
            }
            i = i + 1;
        }
        proof {
            assert(packages@.take(packages.len() as int) =~= packages@);
        }
        (named, unchanged)
    }
}

/// The names of the packages that the changesets name, in name order.
pub fn named_packages(changesets: &Vec<Changeset>) -> (r: Vec<String>)
    ensures
        strictly_sorted(views(r@)),
        forall|n: Seq<char>| views(r@).contains(n) <==> crate::none_bump::names_package(flat_releases(changeset_views(changesets@)), n),
{
    let ghost cs = changeset_views(changesets@);
    let mut seen: Vec<String> = Vec::new();
    let mut i: usize = 0;
    while i < changesets.len()
        invariant
            i <= changesets.len(),
            cs == changeset_views(changesets@),
            strictly_sorted(views(seen@)),
            forall|n: Seq<char>| views(seen@).contains(n) <==> crate::none_bump::names_package(flat_releases(cs.take(i as int)), n),
        decreases changesets.len() - i,
    {
        let releases = &changesets[i].releases;
        let ghost prefix = flat_releases(cs.take(i as int));
        let mut j: usize = 0;
        while j < releases.len()
            invariant
                j <= releases.len(),
                i < changesets.len(),
                releases@ == changesets@[i as int].releases@,
                strictly_sorted(views(seen@)),
                forall|n: Seq<char>| views(seen@).contains(n) <==> crate::none_bump::names_package(prefix + crate::model::release_views(releases@).take(j as int), n),
            decreases releases.len() - j,
        {
            proof {
                assert(prefix + crate::model::release_views(releases@).take(j + 1) =~= (prefix + crate::model::release_views(releases@).take(j as int)).push(releases@[j as int]@));
                crate::none_bump::lemma_names_push(prefix + crate::model::release_views(releases@).take(j as int), releases@[j as int]@);
            }
            let ghost seen_before = views(seen@);
            insert_sorted(&mut seen, releases[j].name.clone());
            proof {
                let rs = prefix + crate::model::release_views(releases@).take(j as int);
                assert forall|n: Seq<char>| views(seen@).contains(n) <==> crate::none_bump::names_package(prefix + crate::model::release_views(releases@).take(j + 1), n) by {
                    assert(views(seen@).contains(n) <==> (seen_before.contains(n) || n == releases@[j as int].name@));
                    assert(crate::none_bump::names_package(rs.push(releases@[j as int]@), n) <==> (crate::none_bump::names_package(rs, n) || releases@[j as int]@.0 == n));
                }
            }
            j = j + 1;
        }
        proof {
            assert(cs.take(i + 1).drop_last() =~= cs.take(i as int));
            assert(cs.take(i + 1).last() == changesets@[i as int]@);
            assert(crate::model::release_views(releases@).take(releases.len() as int) =~= crate::model::release_views(releases@));
            assert(flat_releases(cs.take(i + 1)) =~= prefix + crate::model::release_views(releases@));
        }
        i = i + 1;
    }
    proof {
        assert(cs.take(changesets.len() as int) =~= cs);
    }
    seen
}

/// The pre-release tag configured for a package, if any.
pub open spec fn configured_tag(cfg: Option<PackageReleaseConfig>) -> Option<Seq<char>> {
    match cfg {
        Some(c) => match c.prerelease {
            Some(p) => Some(crate::release_state::spec_identifier(p)),
            None => None,
        },
        None => None,
    }
}

/// Whether a package is configured to graduate to `1.0.0`.
pub open spec fn configured_graduation(cfg: Option<PackageReleaseConfig>) -> bool {
    match cfg {
        Some(c) => c.graduate_zero,
        None => false,
    }
}

/// The planned version of a package released with the given bumps and its
/// configuration.
pub open spec fn configured_version(
    p: PackageInfoView,
    bumps: Seq<BumpType>,
    cfg: Option<PackageReleaseConfig>,
    zero: ZeroVersionBehavior,
) -> PackageVersionView {
    PackageVersionView {
        name: p.name,
        current_version: p.version,
        new_version: next_version_spec(p.version, max_bump_of(bumps)->0, configured_tag(cfg), zero, configured_graduation(cfg)),
        bump_type: max_bump_of(bumps)->0,
        auto_bumped: false,
    }
}

/// The releases and unknown packages of (package, bumps) entries, each
/// package released as its configuration says; an entry whose largest
/// bump is `none` is left out.
pub open spec fn configured_plan_spec(
    e: Seq<(Seq<char>, Seq<BumpType>)>,
    pkgs: Seq<PackageInfo>,
    cfg: NameMap<PackageReleaseConfig>,
    zero: ZeroVersionBehavior,
) -> (Seq<PackageVersionView>, Seq<Seq<char>>)
    decreases e.len(),
{
    if e.len() == 0 {
        (Seq::empty(), Seq::empty())
    } else {
        let prev = configured_plan_spec(e.drop_last(), pkgs, cfg, zero);
        let (name, bumps) = e.last();
        if bumps.len() == 0 || max_bump_of(bumps) == Some(BumpType::NoBump) {
            prev
        } else {
            match first_package(pkgs, name) {
                Some(p) => (prev.0.push(configured_version(p, bumps, cfg.lookup(name), zero)), prev.1),
                None => (prev.0, prev.1.push(name)),
            }
        }
    }
}

/// The release of a package that graduates without a changeset.
pub open spec fn graduation_release(p: PackageInfoView, cfg: Option<PackageReleaseConfig>, zero: ZeroVersionBehavior) -> PackageVersionView {
    PackageVersionView {
        name: p.name,
        current_version: p.version,
        new_version: next_version_spec(p.version, BumpType::Major, configured_tag(cfg), zero, true),
        bump_type: BumpType::Major,
        auto_bumped: false,
    }
}

/// The packages among the first `n` that are configured to graduate, are
/// `0.x`, and have no changeset, released at `1.0.0`; in project order.
pub open spec fn graduation_only_spec(
    e: Seq<(Seq<char>, Seq<BumpType>)>,
    pkgs: Seq<PackageInfo>,
    cfg: NameMap<PackageReleaseConfig>,
    zero: ZeroVersionBehavior,
    n: int,
) -> Seq<PackageVersionView>
    decreases n,
{
    if n <= 0 {
        Seq::empty()
    } else {
        let prev = graduation_only_spec(e, pkgs, cfg, zero, n - 1);
        let p = pkgs[n - 1];
        if configured_graduation(cfg.lookup(p.name@)) && crate::version::is_zero_version_spec(p.version@) && !has_key(e, p.name@) {
            prev.push(graduation_release(p@, cfg.lookup(p.name@), zero))
        } else {
            prev
        }
    }
}

/// Whether some entry is for `name`.
fn entries_have(entries: &Vec<(String, Vec<BumpType>)>, name: &str) -> (r: bool)
    ensures
        r == has_key(entry_views(entries@), name@),
{
    let mut i: usize = 0;
    while i < entries.len()
        invariant
            i <= entries.len(),
            forall|j: int| 0 <= j < i ==> entries@[j].0@ != name@,
        decreases entries.len() - i,
    {
        if crate::text::str_eq(entries[i].0.as_str(), name) {
            proof {
                assert(entry_views(entries@)[i as int].0 == name@);
            }
            return true;
        }
        i = i + 1;
    }
    proof {
        if has_key(entry_views(entries@), name@) {
            let j = choose|j: int| 0 <= j < entry_views(entries@).len() && entry_views(entries@)[j].0 == name@;
            assert(entries@[j].0@ == name@);
        }
    }
    false
}

/// The version a configured package is released at.
fn configured_next_version(
    version: &Version,
    bump: BumpType,
    cfg: Option<&PackageReleaseConfig>,
    zero: ZeroVersionBehavior,
    graduate_default: bool,
) -> (r: Version)
    requires
        next_version_fits(version@, bump, zero),
    ensures
        r@ == next_version_spec(
            version@,
            bump,
            configured_tag(match cfg {
                Some(c) => Some(*c),
                None => None,
            }),
            zero,
            graduate_default || configured_graduation(match cfg {
                Some(c) => Some(*c),
                None => None,
            }),
        ),
{
    match cfg {
        Some(c) => next_version(version, bump, c.prerelease.as_ref(), zero, graduate_default || c.graduate_zero),
        None => next_version(version, bump, None, zero, graduate_default),
    }
}

impl VersionPlanner {
    /// Plans the releases that the changesets ask for, each package
    /// released as its configuration says (pre-release tag, graduation);
    /// then the packages configured to graduate without a changeset.
    pub fn plan_releases_per_package(
        changesets: &Vec<Changeset>,
        packages: &Vec<PackageInfo>,
        per_package: &NameMap<PackageReleaseConfig>,
        zero: ZeroVersionBehavior,
    ) -> (r: ReleasePlan)
        requires
            all_bumps_fit(packages@),
            per_package.wf(),
        ensures
            package_version_views(r.releases@) == configured_plan_spec(
                aggregate_spec(flat_releases(changeset_views(changesets@))),
                packages@,
                *per_package,
                zero,
            ).0 + graduation_only_spec(
                aggregate_spec(flat_releases(changeset_views(changesets@))),
                packages@,
                *per_package,
                zero,
                packages@.len() as int,
            ),
            views(r.unknown_packages@) == configured_plan_spec(
                aggregate_spec(flat_releases(changeset_views(changesets@))),
                packages@,
                *per_package,
                zero,
            ).1,
    {
        let bumps = Self::aggregate_bumps(changesets);
        let entries = bump_map_to_vec(&bumps);
        let ghost e = entry_views(entries@);
        let mut releases: Vec<PackageVersion> = Vec::new();
        let mut unknown: Vec<String> = Vec::new();
        let mut i: usize = 0;
        while i < entries.len()
            invariant
                i <= entries.len(),
                e == entry_views(entries@),
                all_bumps_fit(packages@),
                per_package.wf(),
                package_version_views(releases@) == configured_plan_spec(e.take(i as int), packages@, *per_package, zero).0,
                views(unknown@) == configured_plan_spec(e.take(i as int), packages@, *per_package, zero).1,
            decreases entries.len() - i,
        {
            proof {
                assert(e.take(i + 1).drop_last() =~= e.take(i as int));
                assert(e.take(i + 1).last() == (entries@[i as int].0@, entries@[i as int].1@));
            }
            let (name, bumps) = (&entries[i].0, &entries[i].1);
            proof {
                lemma_max_bump_of(bumps@);
            }
            match max_bump_type(bumps.as_slice()) {
                None | Some(BumpType::NoBump) => {},
                Some(bump_type) => {
                    match crate::validator::lookup_package(packages, name.as_str()) {
                        Some(k) => {
                            let pkg = &packages[k];
                            let cfg = per_package.get(name.as_str());
                            let new_version = configured_next_version(&pkg.version, bump_type, cfg, zero, false);
                            let ghost before = releases@;
                            releases.push(PackageVersion {
                                name: name.clone(),
                                current_version: pkg.version.clone(),
                                new_version,
                                bump_type,
                                auto_bumped: false,
                            });
                            proof {
                                assert(package_version_views(releases@) =~= package_version_views(before).push(
                                    configured_version(pkg@, bumps@, per_package.lookup(name@), zero),
                                ));
                            }
                        },
                        None => {
                            crate::text::push_string(&mut unknown, name.clone());
                        },
                    }
                },
            }
            i = i + 1;
        }
        proof {
            assert(e.take(entries.len() as int) =~= e);
        }
        let ghost planned = package_version_views(releases@);
        let mut k: usize = 0;
        while k < packages.len()
            invariant
                k <= packages.len(),
                e == entry_views(entries@),
                all_bumps_fit(packages@),
                per_package.wf(),
                package_version_views(releases@) == planned + graduation_only_spec(e, packages@, *per_package, zero, k as int),
            decreases packages.len() - k,
        {
            let pkg = &packages[k];
            let cfg = per_package.get(pkg.name.as_str());
            let graduates = match cfg {
                Some(c) => c.graduate_zero,
                None => false,
            };
            if graduates && crate::version::is_zero_version(&pkg.version) && !entries_have(&entries, pkg.name.as_str()) {
                let new_version = configured_next_version(&pkg.version, BumpType::Major, cfg, zero, true);
                let ghost before = releases@;
                releases.push(PackageVersion {
                    name: pkg.name.clone(),
                    current_version: pkg.version.clone(),
                    new_version,
                    bump_type: BumpType::Major,
                    auto_bumped: false,
                });
                proof {
                    assert(package_version_views(releases@) =~= package_version_views(before).push(
                        graduation_release(pkg@, per_package.lookup(pkg.name@), zero),
                    ));
                }
            }
            k = k + 1;
        }
        ReleasePlan { releases, unknown_packages: unknown }
    }

    /// The releases that take every pre-release package to the normal
    /// version it leads up to, as patch releases.
    pub fn plan_graduation(packages: &Vec<PackageInfo>, zero: ZeroVersionBehavior) -> (r: ReleasePlan)
        ensures
            package_version_views(r.releases@) == graduation_plan_spec(packages@, zero, packages@.len() as int),
            r.unknown_packages@.len() == 0,
    {
        let mut releases: Vec<PackageVersion> = Vec::new();
        let mut k: usize = 0;
        while k < packages.len()
            invariant
                k <= packages.len(),
                package_version_views(releases@) == graduation_plan_spec(packages@, zero, k as int),
            decreases packages.len() - k,
        {
            let pkg = &packages[k];
            if crate::version::is_prerelease(&pkg.version) {
                let new_version = crate::version::release_version(&pkg.version, BumpType::Patch, zero);
                let ghost before = releases@;
                releases.push(PackageVersion {
                    name: pkg.name.clone(),
                    current_version: pkg.version.clone(),
                    new_version,
                    bump_type: BumpType::Patch,
                    auto_bumped: false,
                });
                proof {
                    assert(package_version_views(releases@) =~= package_version_views(before).push(
                        prerelease_graduation(pkg@, zero),
                    ));
                }
            }
            k = k + 1;
        }
        ReleasePlan { releases, unknown_packages: Vec::new() }
    }
}

/// The release that takes a pre-release package to its normal version.
pub open spec fn prerelease_graduation(p: PackageInfoView, zero: ZeroVersionBehavior) -> PackageVersionView {
    PackageVersionView {
        name: p.name,
        current_version: p.version,
        new_version: release_version_spec(p.version, BumpType::Patch, zero),
        bump_type: BumpType::Patch,
        auto_bumped: false,
    }
}

/// The graduations of the pre-release packages among the first `n`.
pub open spec fn graduation_plan_spec(pkgs: Seq<PackageInfo>, zero: ZeroVersionBehavior, n: int) -> Seq<PackageVersionView>
    decreases n,
{
    if n <= 0 {
        Seq::empty()
    } else {
        let prev = graduation_plan_spec(pkgs, zero, n - 1);
        if crate::version::is_prerelease_spec(pkgs[n - 1].version@) {
            prev.push(prerelease_graduation(pkgs[n - 1]@, zero))
        } else {
            prev
        }
    }
}

} // verus!

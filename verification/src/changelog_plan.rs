//! Which changelog files a release touches and what it writes into each:
//! one shared changelog at the project root, or one per released package.
use vstd::prelude::*;

use crate::changelog::{
    entries_for, entry_views, root_entries, ChangelogEntry, ChangesetAggregator, ReleaseDate, VersionRelease,
};
use crate::config::ChangelogLocation;
use crate::model::{planned_names, PackageInfo, PackageInfoView, PackageVersion};
use crate::paths::{path_join, path_join_spec};
use crate::text::{push_string, views};
use crate::version::{max_version_spec, version_not_below, version_text, Version, VersionView};

verus! {

/// The changelog file of a directory.
pub open spec fn changelog_in(dir: Seq<char>) -> Seq<char> {
    path_join_spec(dir, "CHANGELOG.md"@)
}

/// The package a name refers to: the last package with that name, as a
/// lookup table filled in package order keeps it.
pub open spec fn package_by_name(pkgs: Seq<PackageInfo>, name: Seq<char>) -> Option<PackageInfoView>
    decreases pkgs.len(),
{
    if pkgs.len() == 0 {
        None
    } else if pkgs.last().name@ == name {
        Some(pkgs.last()@)
    } else {
        package_by_name(pkgs.drop_last(), name)
    }
}

/// The new versions of the planned releases, in order.
pub open spec fn new_versions(planned: Seq<PackageVersion>) -> Seq<VersionView> {
    planned.map_values(|r: PackageVersion| r.new_version@)
}

/// The current versions of the planned releases, in order.
pub open spec fn current_versions(planned: Seq<PackageVersion>) -> Seq<VersionView> {
    planned.map_values(|r: PackageVersion| r.current_version@)
}

/// The changelog of each released package that is found in the project.
pub open spec fn package_paths_spec(planned: Seq<PackageVersion>, pkgs: Seq<PackageInfo>) -> Seq<Seq<char>>
    decreases planned.len(),
{
    if planned.len() == 0 {
        Seq::empty()
    } else {
        let prev = package_paths_spec(planned.drop_last(), pkgs);
        match package_by_name(pkgs, planned.last().name@) {
            Some(p) => prev.push(changelog_in(p.path)),
            None => prev,
        }
    }
}

/// The changelog files a release may write: the root changelog when
/// something is released, or each released package's changelog.
pub open spec fn capture_paths_spec(
    location: ChangelogLocation,
    root: Seq<char>,
    planned: Seq<PackageVersion>,
    pkgs: Seq<PackageInfo>,
) -> Seq<Seq<char>> {
    match location {
        ChangelogLocation::Root => if planned.len() > 0 {
            seq![changelog_in(root)]
        } else {
            Seq::empty()
        },
        ChangelogLocation::PerPackage => package_paths_spec(planned, pkgs),
    }
}

/// One changelog write: the file, the package it is about (none for the
/// root changelog), the release written and the version it follows.
#[derive(Debug)]
pub struct ChangelogWrite {
    pub path: String,
    pub package: Option<String>,
    pub release: VersionRelease,
    pub previous_version: Option<String>,
}

/// The abstract value of a changelog write.
pub struct ChangelogWriteView {
    pub path: Seq<char>,
    pub package: Option<Seq<char>>,
    pub version: VersionView,
    pub date: ReleaseDate,
    pub entries: Seq<(crate::model::ChangeCategory, Seq<char>, Option<Seq<char>>)>,
    pub previous: Option<Seq<char>>,
}

pub open spec fn write_view(w: ChangelogWrite) -> ChangelogWriteView {
    ChangelogWriteView {
        path: w.path@,
        package: match w.package {
            Some(p) => Some(p@),
            None => None,
        },
        version: w.release.version@,
        date: w.release.date,
        entries: entry_views(w.release.entries@),
        previous: match w.previous_version {
            Some(p) => Some(p@),
            None => None,
        },
    }
}

pub open spec fn write_views(s: Seq<ChangelogWrite>) -> Seq<ChangelogWriteView> {
    s.map_values(|w: ChangelogWrite| write_view(w))
}

/// The root changelog write: the greatest new version, every released
/// package's entries in release order, and the greatest current version
/// as the previous one; nothing when there is no entry.
pub open spec fn root_writes_spec(
    root: Seq<char>,
    items: Seq<(Seq<char>, (crate::model::ChangeCategory, Seq<char>, Option<Seq<char>>))>,
    planned: Seq<PackageVersion>,
    date: ReleaseDate,
) -> Seq<ChangelogWriteView> {
    match max_version_spec(new_versions(planned)) {
        None => Seq::empty(),
        Some(v) => {
            let entries = root_entries(items, planned_names(planned));
            if entries.len() == 0 {
                Seq::empty()
            } else {
                seq![
                    ChangelogWriteView {
                        path: changelog_in(root),
                        package: None,
                        version: v,
                        date,
                        entries,
                        previous: match max_version_spec(current_versions(planned)) {
                            Some(c) => Some(version_text(c)),
                            None => None,
                        },
                    },
                ]
            }
        },
    }
}

/// The per-package writes: for each released package found in the project
/// and having entries, its entries at its new version, following its
/// current version.
pub open spec fn package_writes_spec(
    items: Seq<(Seq<char>, (crate::model::ChangeCategory, Seq<char>, Option<Seq<char>>))>,
    planned: Seq<PackageVersion>,
    pkgs: Seq<PackageInfo>,
    date: ReleaseDate,
) -> Seq<ChangelogWriteView>
    decreases planned.len(),
{
    if planned.len() == 0 {
        Seq::empty()
    } else {
        let prev = package_writes_spec(items, planned.drop_last(), pkgs, date);
        let r = planned.last();
        match package_by_name(pkgs, r.name@) {
            None => prev,
            Some(p) => {
                let entries = entries_for(items, r.name@);
                if entries.len() > 0 {
                    prev.push(
                        ChangelogWriteView {
                            path: changelog_in(p.path),
                            package: Some(r.name@),
                            version: r.new_version@,
                            date,
                            entries,
                            previous: Some(version_text(r.current_version@)),
                        },
                    )
                } else {
                    prev
                }
            },
        }
    }
}

/// The writes of a release, as the changelog location says.
pub open spec fn changelog_writes_spec(
    location: ChangelogLocation,
    root: Seq<char>,
    items: Seq<(Seq<char>, (crate::model::ChangeCategory, Seq<char>, Option<Seq<char>>))>,
    planned: Seq<PackageVersion>,
    pkgs: Seq<PackageInfo>,
    date: ReleaseDate,
) -> Seq<ChangelogWriteView> {
    match location {
        ChangelogLocation::Root => root_writes_spec(root, items, planned, date),
        ChangelogLocation::PerPackage => package_writes_spec(items, planned, pkgs, date),
    }
}

/// A root changelog is written once, at the greatest new version of the
/// planned releases: a version one of them is released at, and below none
/// of them (when semver's order is a strict weak order and each new
/// version reads back as a semantic version).
pub proof fn law_root_changelog_takes_greatest_version(
    root: Seq<char>,
    items: Seq<(Seq<char>, (crate::model::ChangeCategory, Seq<char>, Option<Seq<char>>))>,
    planned: Seq<PackageVersion>,
    pkgs: Seq<PackageInfo>,
    date: ReleaseDate,
)
    requires
        crate::version::semver_order_holds(),
        forall|i: int|
            0 <= i < planned.len() ==> crate::version::semver_parse(version_text((#[trigger] planned[i]).new_version@)) is Some,
    ensures
        changelog_writes_spec(ChangelogLocation::Root, root, items, planned, pkgs, date).len() <= 1,
        changelog_writes_spec(ChangelogLocation::Root, root, items, planned, pkgs, date).len() == 1 ==> {
            let v = changelog_writes_spec(ChangelogLocation::Root, root, items, planned, pkgs, date)[0].version;
            &&& exists|j: int| 0 <= j < planned.len() && v == (#[trigger] planned[j]).new_version@
            &&& forall|i: int| 0 <= i < planned.len() ==> crate::version::not_below(v, (#[trigger] planned[i]).new_version@)
        },
{
    let vs = new_versions(planned);
    assert forall|i: int| 0 <= i < vs.len() implies crate::version::semver_parse(version_text(#[trigger] vs[i])) is Some by {
        assert(vs[i] == planned[i].new_version@);
    }
    crate::version::law_max_version_is_greatest(vs);
    crate::version::law_max_version_is_one_of(vs);
    if let Some(m) = max_version_spec(vs) {
        let j = choose|j: int| 0 <= j < vs.len() && vs[j] == m;
        assert(planned[j].new_version@ == m);
        assert forall|i: int| 0 <= i < planned.len() implies crate::version::not_below(m, (#[trigger] planned[i]).new_version@) by {
            assert(vs[i] == planned[i].new_version@);
        }
    }
}

/// A changelog write is the one for release `r`: it names the package,
/// is written at its new version and follows its current version.
pub open spec fn write_for_release(w: ChangelogWriteView, r: PackageVersion) -> bool {
    &&& w.package == Some(r.name@)
    &&& w.version == r.new_version@
    &&& w.previous == Some(version_text(r.current_version@))
}

/// The write is the one for some planned release.
pub open spec fn for_some_release(w: ChangelogWriteView, planned: Seq<PackageVersion>) -> bool {
    exists|j: int| 0 <= j < planned.len() && #[trigger] write_for_release(w, planned[j])
}

/// Each per-package changelog write is for one of the planned releases:
/// it names the package, is written at the package's new version and
/// follows its current version; there is at most one write per release.
pub proof fn law_package_changelog_takes_own_version(
    items: Seq<(Seq<char>, (crate::model::ChangeCategory, Seq<char>, Option<Seq<char>>))>,
    planned: Seq<PackageVersion>,
    pkgs: Seq<PackageInfo>,
    date: ReleaseDate,
)
    ensures
        package_writes_spec(items, planned, pkgs, date).len() <= planned.len(),
        forall|k: int|
            0 <= k < package_writes_spec(items, planned, pkgs, date).len() ==> #[trigger] for_some_release(
                package_writes_spec(items, planned, pkgs, date)[k],
                planned,
            ),
    decreases planned.len(),
{
    if planned.len() > 0 {
        let init = planned.drop_last();
        law_package_changelog_takes_own_version(items, init, pkgs, date);
        let prev = package_writes_spec(items, init, pkgs, date);
        let ws = package_writes_spec(items, planned, pkgs, date);
        assert forall|k: int| 0 <= k < ws.len() implies #[trigger] for_some_release(ws[k], planned) by {
            if k < prev.len() {
                assert(ws[k] == prev[k]);
                assert(for_some_release(prev[k], init));
                let j = choose|j: int| 0 <= j < init.len() && #[trigger] write_for_release(prev[k], init[j]);
                assert(init[j] == planned[j]);
                assert(write_for_release(ws[k], planned[j]));
            } else {
                assert(planned[planned.len() - 1] == planned.last());
                assert(write_for_release(ws[k], planned[planned.len() - 1]));
            }
        }
    }
}

/// Looks a package up by name; the last package of that name wins.
pub fn find_package_by_name(pkgs: &Vec<PackageInfo>, name: &str) -> (r: Option<usize>)
    ensures
        match r {
            Some(i) => i < pkgs@.len() && package_by_name(pkgs@, name@) == Some(pkgs@[i as int]@),
            None => package_by_name(pkgs@, name@) is None,
        },
{
    let mut found: Option<usize> = None;
    let mut i: usize = 0;
    while i < pkgs.len()
        invariant
            i <= pkgs.len(),
            match found {
                Some(k) => k < i && package_by_name(pkgs@.take(i as int), name@) == Some(pkgs@[k as int]@),
                None => package_by_name(pkgs@.take(i as int), name@) is None,
            },
        decreases pkgs.len() - i,
    {
        proof {
            assert(pkgs@.take(i + 1).drop_last() =~= pkgs@.take(i as int));
        }
        if crate::text::str_eq(pkgs[i].name.as_str(), name) {
            found = Some(i);
        }
        i = i + 1;
    }
    proof {
        assert(pkgs@.take(pkgs@.len() as int) =~= pkgs@);
    }
    found
}

/// The greatest new version of the planned releases.
pub fn max_new_version(planned: &Vec<PackageVersion>) -> (r: Option<Version>)
    ensures
        match r {
            Some(v) => max_version_spec(new_versions(planned@)) == Some(v@),
            None => max_version_spec(new_versions(planned@)) is None,
        },
{
    let mut best: Option<Version> = None;
    let mut i: usize = 0;
    while i < planned.len()
        invariant
            i <= planned.len(),
            match best {
                Some(v) => max_version_spec(new_versions(planned@.take(i as int))) == Some(v@),
                None => max_version_spec(new_versions(planned@.take(i as int))) is None,
            },
        decreases planned.len() - i,
    {
        proof {
            assert(new_versions(planned@.take(i + 1)).drop_last() =~= new_versions(planned@.take(i as int)));
            assert(new_versions(planned@.take(i + 1)).last() == planned@[i as int].new_version@);
        }
        let candidate = &planned[i].new_version;
        let replace = match &best {
            None => true,
            Some(m) => version_not_below(candidate, m),
        };
        if replace {
            best = Some(candidate.clone());
        }
        i = i + 1;
    }
    proof {
        assert(planned@.take(planned@.len() as int) =~= planned@);
    }
    best
}

/// The greatest current version of the planned releases.
pub fn max_current_version(planned: &Vec<PackageVersion>) -> (r: Option<Version>)
    ensures
        match r {
            Some(v) => max_version_spec(current_versions(planned@)) == Some(v@),
            None => max_version_spec(current_versions(planned@)) is None,
        },
{
    let mut best: Option<Version> = None;
    let mut i: usize = 0;
    while i < planned.len()
        invariant
            i <= planned.len(),
            match best {
                Some(v) => max_version_spec(current_versions(planned@.take(i as int))) == Some(v@),
                None => max_version_spec(current_versions(planned@.take(i as int))) is None,
            },
        decreases planned.len() - i,
    {
        proof {
            assert(current_versions(planned@.take(i + 1)).drop_last() =~= current_versions(planned@.take(i as int)));
            assert(current_versions(planned@.take(i + 1)).last() == planned@[i as int].current_version@);
        }
        let candidate = &planned[i].current_version;
        let replace = match &best {
            None => true,
            Some(m) => version_not_below(candidate, m),
        };
        if replace {
            best = Some(candidate.clone());
        }
        i = i + 1;
    }
    proof {
        assert(planned@.take(planned@.len() as int) =~= planned@);
    }
    best
}

/// The changelog files a release may write, whose contents are saved
/// before the release so that a failed release can restore them.
pub fn changelog_paths(
    location: ChangelogLocation,
    root: &str,
    planned: &Vec<PackageVersion>,
    packages: &Vec<PackageInfo>,
) -> (r: Vec<String>)
    ensures
        views(r@) == capture_paths_spec(location, root@, planned@, packages@),
{
    let mut r: Vec<String> = Vec::new();
    match location {
        ChangelogLocation::Root => {
            if planned.len() > 0 {
                push_string(&mut r, path_join(root, "CHANGELOG.md"));
                proof {
                    assert(views(r@) =~= seq![changelog_in(root@)]);
                }
            }
        },
        ChangelogLocation::PerPackage => {
            let mut i: usize = 0;
            while i < planned.len()
                invariant
                    i <= planned.len(),
                    views(r@) == package_paths_spec(planned@.take(i as int), packages@),
                decreases planned.len() - i,
            {
                proof {
                    assert(planned@.take(i + 1).drop_last() =~= planned@.take(i as int));
                }
                match find_package_by_name(packages, planned[i].name.as_str()) {
                    Some(k) => {
                        push_string(&mut r, path_join(packages[k].path.as_str(), "CHANGELOG.md"));
                    },
                    None => {},
                }
                i = i + 1;
            }
            proof {
                assert(planned@.take(planned@.len() as int) =~= planned@);
            }
        },
    }
    r
}

/// What a release writes into changelogs, before anything is written.
pub fn plan_changelog_writes(
    location: ChangelogLocation,
    root: &str,
    aggregator: &ChangesetAggregator,
    planned: &Vec<PackageVersion>,
    packages: &Vec<PackageInfo>,
    date: ReleaseDate,
) -> (r: Vec<ChangelogWrite>)
    ensures
        write_views(r@) == changelog_writes_spec(location, root@, aggregator.items(), planned@, packages@, date),
{
    match location {
        ChangelogLocation::Root => root_writes(root, aggregator, planned, date),
        ChangelogLocation::PerPackage => package_writes(aggregator, planned, packages, date),
    }
}

fn root_writes(root: &str, aggregator: &ChangesetAggregator, planned: &Vec<PackageVersion>, date: ReleaseDate) -> (r: Vec<
    ChangelogWrite,
>)
    ensures
        write_views(r@) == root_writes_spec(root@, aggregator.items(), planned@, date),
{
    let mut r: Vec<ChangelogWrite> = Vec::new();
    let version = match max_new_version(planned) {
        Some(v) => v,
        None => {
            proof {
                assert(write_views(r@) =~= Seq::<ChangelogWriteView>::empty());
            }
            return r;
        },
    };
    let mut packages: Vec<(String, Version)> = Vec::new();
    let mut i: usize = 0;
    while i < planned.len()
        invariant
            i <= planned.len(),
            packages@.map_values(|p: (String, Version)| p.0@) == planned_names(planned@.take(i as int)),
        decreases planned.len() - i,
    {
        let ghost before = packages@;
        let name = planned[i].name.clone();
        packages.push((name, planned[i].new_version.clone()));
        proof {
            assert(packages@ == before.push(packages@.last()));
            assert(packages@.last().0@ == planned@[i as int].name@);
            assert(planned_names(planned@.take(i + 1)) =~= planned_names(planned@.take(i as int)).push(planned@[i as int].name@));
            assert(packages@.map_values(|p: (String, Version)| p.0@) =~= before.map_values(|p: (String, Version)| p.0@).push(
                planned@[i as int].name@,
            ));
        }
        i = i + 1;
    }
    proof {
        assert(planned@.take(planned@.len() as int) =~= planned@);
    }
    match aggregator.build_root_release(&version, date, &packages) {
        Some(release) => {
            let previous_version = match max_current_version(planned) {
                Some(c) => Some(c.to_string()),
                None => None,
            };
            r.push(ChangelogWrite { path: path_join(root, "CHANGELOG.md"), package: None, release, previous_version });
            proof {
                assert(write_views(r@) =~= root_writes_spec(root@, aggregator.items(), planned@, date));
            }
        },
        None => {
            proof {
                assert(write_views(r@) =~= root_writes_spec(root@, aggregator.items(), planned@, date));
            }
        },
    }
    r
}

fn package_writes(
    aggregator: &ChangesetAggregator,
    planned: &Vec<PackageVersion>,
    packages: &Vec<PackageInfo>,
    date: ReleaseDate,
) -> (r: Vec<ChangelogWrite>)
    ensures
        write_views(r@) == package_writes_spec(aggregator.items(), planned@, packages@, date),
{
    let mut r: Vec<ChangelogWrite> = Vec::new();
    let mut i: usize = 0;
    while i < planned.len()
        invariant
            i <= planned.len(),
            write_views(r@) == package_writes_spec(aggregator.items(), planned@.take(i as int), packages@, date),
        decreases planned.len() - i,
    {
        proof {
            assert(planned@.take(i + 1).drop_last() =~= planned@.take(i as int));
        }
        let release = &planned[i];
        match find_package_by_name(packages, release.name.as_str()) {
            Some(k) => {
                match aggregator.build_package_release(release.name.as_str(), &release.new_version, date) {
                    Some(vr) => {
                        let ghost before = r@;
                        r.push(
                            ChangelogWrite {
                                path: path_join(packages[k].path.as_str(), "CHANGELOG.md"),
                                package: Some(release.name.clone()),
                                release: vr,
                                previous_version: Some(release.current_version.to_string()),
                            },
                        );
                        proof {
                            assert(write_views(r@) =~= write_views(before).push(write_view(r@.last())));
                        }
                    },
                    None => {},
                }
            },
            None => {},
        }
        i = i + 1;
    }
    proof {
        assert(planned@.take(planned@.len() as int) =~= planned@);
    }
    r
}

} // verus!

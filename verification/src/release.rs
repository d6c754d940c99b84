//! The release operation: it classifies the request, plans the versions,
//! prepares the changelogs and runs the release steps.
use vstd::prelude::*;

use crate::changelog::{changeset_items, dependency_line, ChangesetAggregator};
use crate::config::{promote_message_spec, GitConfig, RootChangesetConfig, ZeroVersionBehavior};
use crate::error::{OperationError, Result};
use crate::graph::{deps_of, edge_views, WorkspaceDependencyGraph};
use crate::model::{
    changeset_views, package_version_views, planned_names, ChangeCategory, Changeset, ChangesetView, NoneBumpBehavior,
    PackageInfo, PackageVersion, PackageVersionView,
};
use crate::none_bump::{apply_none_bump_behavior, flat_releases, none_only, promote_spec};
use crate::planner::{aggregate_spec, all_bumps_fit, configured_plan_spec, graduation_only_spec, VersionPlanner};
use crate::status::{bumps_fit, expand_with_reverse_dependencies, expands_to};
use crate::text::strictly_sorted;
use crate::version::{version_text, BumpType, Version, VersionView};
use std::sync::Arc;
use crate::changelog::{repository_spec, today, ReleaseDate, RepositoryInfo};
use crate::changelog_plan::{
    capture_paths_spec, changelog_paths, changelog_writes_spec, plan_changelog_writes, write_views,
};
use crate::config::ComparisonLinks;
use crate::model::CargoProject;
use crate::paths::{path_join, path_join_spec};
use crate::release_state::{GraduationState, PrereleaseState};
use crate::release_types::{ChangelogFileState, ChangelogUpdate, ReleaseClassification, ReleaseOutcome, ReleaseOutput};
use crate::status::find_packages_with_inherited_versions;
use crate::traits::{
    ChangelogWriter, ChangesetReader, ChangesetWriter, DependencyGraphProvider, GitProvider, GitStatusProvider,
    ManifestWriter, ProjectProvider, ReleaseStateIO,
};
use crate::validator::{ReleaseCliInput, ReleaseValidator};
use crate::changelog_plan::package_by_name;
use crate::model::{clone_package_versions, clone_strings, ProjectKind, TagFormat};
use crate::planner::graduation_plan_spec;
use crate::release_types::SagaReleaseOptions;
use crate::saga::{names_unique, package_path_entries, path_of, ReleaseSaga, ReleaseSagaContext, ReleaseSagaData};
use crate::name_map::NameMap;
use crate::text::{contains_str, push_string, views};
use crate::validator::{PackageReleaseConfig, ReleaseInput};
use crate::version::{is_prerelease, is_prerelease_spec, is_zero_version, is_zero_version_spec};
use crate::release_types::GitOptions;

verus! {

/// Whether a release goes on, has nothing to do, or needs `--force`.
#[derive(Debug, PartialEq, Eq, Structural, Clone, Copy)]
pub enum EarlyReturnDecision {
    Continue,
    NoChangesets,
    ForceRequired,
}

/// Some configured package is released as a pre-release.
pub open spec fn config_has_prerelease(m: NameMap<PackageReleaseConfig>) -> bool {
    exists|i: int| 0 <= i < m.pairs().len() && (#[trigger] m.pairs()[i]).1.prerelease is Some
}

/// Some configured package graduates from `0.x`.
pub open spec fn config_has_graduation(m: NameMap<PackageReleaseConfig>) -> bool {
    exists|i: int| 0 <= i < m.pairs().len() && (#[trigger] m.pairs()[i]).1.graduate_zero
}

/// A pre-release is asked for, for all packages or for one.
pub open spec fn prerelease_configured_spec(input: ReleaseInput, m: NameMap<PackageReleaseConfig>) -> bool {
    input.spec_global_prerelease() is Some || config_has_prerelease(m)
}

/// Some package has a pre-release version.
pub open spec fn has_prerelease_package(pkgs: Seq<PackageInfo>) -> bool {
    exists|i: int| 0 <= i < pkgs.len() && is_prerelease_spec((#[trigger] pkgs[i]).version@)
}

/// Some package has a `0.x` version.
pub open spec fn has_zero_package(pkgs: Seq<PackageInfo>) -> bool {
    exists|i: int| 0 <= i < pkgs.len() && is_zero_version_spec((#[trigger] pkgs[i]).version@)
}

/// The pre-release packages are released as normal versions: no package is
/// configured as a pre-release and some package is one.
pub open spec fn prerelease_graduation_spec(pkgs: Seq<PackageInfo>, m: NameMap<PackageReleaseConfig>) -> bool {
    !config_has_prerelease(m) && has_prerelease_package(pkgs)
}

/// `0.x` packages graduate: a graduation is asked for and some package is `0.x`.
pub open spec fn zero_graduation_spec(pkgs: Seq<PackageInfo>, input: ReleaseInput, m: NameMap<PackageReleaseConfig>) -> bool {
    (input.spec_graduate_all() || config_has_graduation(m)) && has_zero_package(pkgs)
}

/// Without changesets and without a graduation there is nothing to release,
/// unless a pre-release is asked for without `--force`, which is refused.
pub open spec fn early_return_spec(
    no_changesets: bool,
    is_graduating: bool,
    input: ReleaseInput,
    m: NameMap<PackageReleaseConfig>,
) -> EarlyReturnDecision {
    if no_changesets && !is_graduating {
        if prerelease_configured_spec(input, m) && !input.spec_force() {
            EarlyReturnDecision::ForceRequired
        } else {
            EarlyReturnDecision::NoChangesets
        }
    } else {
        EarlyReturnDecision::Continue
    }
}

/// The input asks for a pre-release: for every package, or for one in its
/// per-package configuration.
pub open spec fn prerelease_requested(input: ReleaseInput) -> bool {
    input.spec_global_prerelease() is Some || exists|k: Seq<char>|
        #[trigger] input.spec_per_package_config().lookup(k) matches Some(c) && c.prerelease is Some
}

/// The git work of a release: the command line can switch commit, tags and
/// changeset deletion off, and so can the configuration.
pub open spec fn git_options_spec(input: ReleaseInput, git: GitConfig) -> GitOptions {
    GitOptions {
        should_commit: !input.spec_no_commit() && git.commit,
        should_create_tags: !input.spec_no_tags() && git.tags,
        should_delete_changesets: !input.spec_keep_changesets() && !git.keep_changesets,
    }
}

/// The names of the packages that are not released, in package order.
pub open spec fn unchanged_spec(pkgs: Seq<PackageInfo>, released: Seq<Seq<char>>) -> Seq<Seq<char>>
    decreases pkgs.len(),
{
    if pkgs.len() == 0 {
        Seq::empty()
    } else {
        let prev = unchanged_spec(pkgs.drop_last(), released);
        if released.contains(pkgs.last().name@) {
            prev
        } else {
            prev.push(pkgs.last().name@)
        }
    }
}

/// Every package is either released or reported unchanged, never both,
/// and the unchanged ones are reported once each when names are distinct.
pub proof fn law_unchanged_partition(pkgs: Seq<PackageInfo>, released: Seq<Seq<char>>)
    ensures
        forall|n: Seq<char>|
            #[trigger] unchanged_spec(pkgs, released).contains(n) <==> (crate::model::package_names(pkgs).contains(n)
                && !released.contains(n)),
    decreases pkgs.len(),
{
    if pkgs.len() > 0 {
        law_unchanged_partition(pkgs.drop_last(), released);
        let last = pkgs.last().name@;
        let names = crate::model::package_names(pkgs);
        let prev_names = crate::model::package_names(pkgs.drop_last());
        assert(names =~= prev_names.push(last));
        let prev = unchanged_spec(pkgs.drop_last(), released);
        let dn = unchanged_spec(pkgs, released);
        if released.contains(last) {
            assert(dn == prev);
        } else {
            assert(dn == prev.push(last));
        }
        crate::text::lemma_contains_push(prev_names, last);
        crate::text::lemma_contains_push(prev, last);
        assert forall|n: Seq<char>| dn.contains(n) <==> (names.contains(n) && !released.contains(n)) by {
            assert(prev.contains(n) <==> (prev_names.contains(n) && !released.contains(n)));
            assert(prev_names.push(last).contains(n) <==> (prev_names.contains(n) || n == last));
            assert(prev.push(last).contains(n) <==> (prev.contains(n) || n == last));
        }
    }
}

fn config_entries_have_prerelease(m: &NameMap<PackageReleaseConfig>) -> (r: bool)
    requires
        m.wf(),
    ensures
        r == config_has_prerelease(*m),
{
    let entries = m.entries();
    let mut i: usize = 0;
    while i < entries.len()
        invariant
            i <= entries.len(),
            crate::name_map::keyed_views(entries@) == m.pairs(),
            forall|j: int| 0 <= j < i ==> (#[trigger] m.pairs()[j]).1.prerelease is None,
        decreases entries.len() - i,
    {
        proof {
            assert(m.pairs()[i as int] == (entries@[i as int].0@, entries@[i as int].1));
        }
        if entries[i].1.prerelease.is_some() {
            return true;
        }
        i = i + 1;
    }
    false
}

fn config_entries_have_graduation(m: &NameMap<PackageReleaseConfig>) -> (r: bool)
    requires
        m.wf(),
    ensures
        r == config_has_graduation(*m),
{
    let entries = m.entries();
    let mut i: usize = 0;
    while i < entries.len()
        invariant
            i <= entries.len(),
            crate::name_map::keyed_views(entries@) == m.pairs(),
            forall|j: int| 0 <= j < i ==> !(#[trigger] m.pairs()[j]).1.graduate_zero,
        decreases entries.len() - i,
    {
        proof {
            assert(m.pairs()[i as int] == (entries@[i as int].0@, entries@[i as int].1));
        }
        if entries[i].1.graduate_zero {
            return true;
        }
        i = i + 1;
    }
    false
}

fn any_prerelease_package(pkgs: &Vec<PackageInfo>) -> (r: bool)
    ensures
        r == has_prerelease_package(pkgs@),
{
    let mut i: usize = 0;
    while i < pkgs.len()
        invariant
            i <= pkgs.len(),
            forall|j: int| 0 <= j < i ==> !is_prerelease_spec((#[trigger] pkgs@[j]).version@),
        decreases pkgs.len() - i,
    {
        if is_prerelease(&pkgs[i].version) {
            return true;
        }
        i = i + 1;
    }
    false
}

fn any_zero_package(pkgs: &Vec<PackageInfo>) -> (r: bool)
    ensures
        r == has_zero_package(pkgs@),
{
    let mut i: usize = 0;
    while i < pkgs.len()
        invariant
            i <= pkgs.len(),
            forall|j: int| 0 <= j < i ==> !is_zero_version_spec((#[trigger] pkgs@[j]).version@),
        decreases pkgs.len() - i,
    {
        if is_zero_version(&pkgs[i].version) {
            return true;
        }
        i = i + 1;
    }
    false
}

/// Whether a pre-release is asked for, globally or for some package.
pub fn is_any_prerelease_configured(input: &ReleaseInput, per_package: &NameMap<PackageReleaseConfig>) -> (r: bool)
    requires
        per_package.wf(),
    ensures
        r == prerelease_configured_spec(*input, *per_package),
{
    input.global_prerelease().is_some() || config_entries_have_prerelease(per_package)
}

/// Whether this release takes pre-release packages to normal versions.
pub fn is_prerelease_graduation(packages: &Vec<PackageInfo>, per_package: &NameMap<PackageReleaseConfig>) -> (r: bool)
    requires
        per_package.wf(),
    ensures
        r == prerelease_graduation_spec(packages@, *per_package),
{
    if config_entries_have_prerelease(per_package) {
        return false;
    }
    any_prerelease_package(packages)
}

/// Whether this release takes `0.x` packages to `1.0.0`.
pub fn is_zero_graduation(
    packages: &Vec<PackageInfo>,
    input: &ReleaseInput,
    per_package: &NameMap<PackageReleaseConfig>,
) -> (r: bool)
    requires
        per_package.wf(),
    ensures
        r == zero_graduation_spec(packages@, *input, *per_package),
{
    let has_graduation = input.graduate_all() || config_entries_have_graduation(per_package);
    if !has_graduation {
        return false;
    }
    any_zero_package(packages)
}

/// Decides whether the release goes on when there may be no changeset.
pub fn check_early_return(
    changeset_files: &Vec<String>,
    is_graduating: bool,
    input: &ReleaseInput,
    per_package: &NameMap<PackageReleaseConfig>,
) -> (r: EarlyReturnDecision)
    requires
        per_package.wf(),
    ensures
        r == early_return_spec(changeset_files@.len() == 0, is_graduating, *input, *per_package),
{
    if changeset_files.len() == 0 && !is_graduating {
        if is_any_prerelease_configured(input, per_package) && !input.force() {
            return EarlyReturnDecision::ForceRequired;
        }
        return EarlyReturnDecision::NoChangesets;
    }
    EarlyReturnDecision::Continue
}

/// The git work of this release.
pub fn git_options_for(input: &ReleaseInput, git: &GitConfig) -> (r: GitOptions)
    ensures
        r == git_options_spec(*input, *git),
{
    GitOptions {
        should_commit: !input.no_commit() && git.commit,
        should_create_tags: !input.no_tags() && git.tags,
        should_delete_changesets: !input.keep_changesets() && !git.keep_changesets,
    }
}

/// The packages that this release leaves as they are.
pub fn collect_unchanged_packages(packages: &Vec<PackageInfo>, planned: &Vec<PackageVersion>) -> (r: Vec<String>)
    ensures
        views(r@) == unchanged_spec(packages@, planned_names(planned@)),
{
    let mut released: Vec<String> = Vec::new();
    let mut i: usize = 0;
    while i < planned.len()
        invariant
            i <= planned.len(),
            views(released@) == planned_names(planned@.take(i as int)),
        decreases planned.len() - i,
    {
        push_string(&mut released, planned[i].name.clone());
        proof {
            assert(planned_names(planned@.take(i + 1)) =~= planned_names(planned@.take(i as int)).push(planned@[i as int].name@));
        }
        i = i + 1;
    }
    proof {
        assert(planned@.take(planned@.len() as int) =~= planned@);
    }
    let mut r: Vec<String> = Vec::new();
    let mut k: usize = 0;
    while k < packages.len()
        invariant
            k <= packages.len(),
            views(released@) == planned_names(planned@),
            views(r@) == unchanged_spec(packages@.take(k as int), planned_names(planned@)),
        decreases packages.len() - k,
    {
        proof {
            assert(packages@.take(k + 1).drop_last() =~= packages@.take(k as int));
        }
        if !contains_str(&released, packages[k].name.as_str()) {
            push_string(&mut r, packages[k].name.clone());
        }
        k = k + 1;
    }
    proof {
        assert(packages@.take(packages@.len() as int) =~= packages@);
    }
    r
}

/// The changelog items of a changeset: one entry per package it names.
pub open spec fn view_items(c: ChangesetView) -> Seq<(Seq<char>, (ChangeCategory, Seq<char>, Option<Seq<char>>))> {
    c.releases.map_values(|r: (Seq<char>, BumpType)| (r.0, (c.category, c.summary, None::<Seq<char>>)))
}

/// The changelog items of changesets, in order.
pub open spec fn all_items(cs: Seq<ChangesetView>) -> Seq<(Seq<char>, (ChangeCategory, Seq<char>, Option<Seq<char>>))>
    decreases cs.len(),
{
    if cs.len() == 0 {
        Seq::empty()
    } else {
        all_items(cs.drop_last()) + view_items(cs.last())
    }
}

/// Adds the entries of each changeset, in order.
pub fn aggregate_changesets(aggregator: &mut ChangesetAggregator, changesets: &Vec<Changeset>)
    ensures
        final(aggregator).items() == old(aggregator).items() + all_items(changeset_views(changesets@)),
{
    let mut i: usize = 0;
    while i < changesets.len()
        invariant
            i <= changesets.len(),
            aggregator.items() == old(aggregator).items() + all_items(changeset_views(changesets@.take(i as int))),
        decreases changesets.len() - i,
    {
        let ghost before = aggregator.items();
        aggregator.add_changeset(&changesets[i]);
        proof {
            let c = changesets@[i as int];
            assert(changeset_items(c) =~= view_items(c@));
            assert(changeset_views(changesets@.take(i + 1)).drop_last() =~= changeset_views(changesets@.take(i as int)));
            assert(changeset_views(changesets@.take(i + 1)).last() == c@);
            assert(aggregator.items() =~= old(aggregator).items() + all_items(changeset_views(changesets@.take(i + 1))));
        }
        i = i + 1;
    }
    proof {
        assert(changesets@.take(changesets@.len() as int) =~= changesets@);
    }
}

/// The (name, new version) of each release whose package `direct` names,
/// in release order.
pub open spec fn upgraded_deps(releases: Seq<PackageVersion>, direct: Seq<Seq<char>>) -> Seq<(Seq<char>, VersionView)>
    decreases releases.len(),
{
    if releases.len() == 0 {
        Seq::empty()
    } else {
        let prev = upgraded_deps(releases.drop_last(), direct);
        if direct.contains(releases.last().name@) {
            prev.push((releases.last().name@, releases.last().new_version@))
        } else {
            prev
        }
    }
}

/// The changelog item of `name` for one updated dependency.
pub open spec fn dependency_item(name: Seq<char>, template: Seq<char>, d: (Seq<char>, VersionView)) -> (
    Seq<char>,
    (ChangeCategory, Seq<char>, Option<Seq<char>>),
) {
    (name, (ChangeCategory::Changed, dependency_line(template, d.0, version_text(d.1)), None))
}

/// The items of the first `k` releases: each release that was bumped only
/// because of its dependencies gets an item per released direct dependency.
pub open spec fn dependency_items(
    releases: Seq<PackageVersion>,
    k: nat,
    edges: Seq<(Seq<char>, Seq<char>)>,
    template: Seq<char>,
) -> Seq<(Seq<char>, (ChangeCategory, Seq<char>, Option<Seq<char>>))>
    decreases k,
{
    if k == 0 {
        Seq::empty()
    } else {
        let prev = dependency_items(releases, (k - 1) as nat, edges, template);
        let r = releases[k - 1];
        if r.auto_bumped {
            prev + upgraded_deps(releases, deps_of(edges, r.name@)).map_values(
                |d: (Seq<char>, VersionView)| dependency_item(r.name@, template, d),
            )
        } else {
            prev
        }
    }
}

/// Records, for every release that its dependencies caused, which of its
/// direct dependencies are released and at what version.
pub fn populate_dependency_update_entries(
    releases: &Vec<PackageVersion>,
    graph: &WorkspaceDependencyGraph,
    template: &str,
    aggregator: &mut ChangesetAggregator,
)
    ensures
        final(aggregator).items() == old(aggregator).items() + dependency_items(
            releases@,
            releases@.len(),
            edge_views(graph.edges@),
            template@,
        ),
{
    let ghost edges = edge_views(graph.edges@);
    let mut i: usize = 0;
    while i < releases.len()
        invariant
            i <= releases.len(),
            edges == edge_views(graph.edges@),
            aggregator.items() == old(aggregator).items() + dependency_items(releases@, i as nat, edges, template@),
        decreases releases.len() - i,
    {
        let release = &releases[i];
        if release.auto_bumped {
            let direct = graph.direct_dependencies(release.name.as_str());
            let mut upgraded: Vec<(String, Version)> = Vec::new();
            let mut j: usize = 0;
            while j < releases.len()
                invariant
                    j <= releases.len(),
                    upgraded@.map_values(|d: (String, Version)| (d.0@, d.1@)) == upgraded_deps(
                        releases@.take(j as int),
                        views(direct@),
                    ),
                decreases releases.len() - j,
            {
                proof {
                    assert(releases@.take(j + 1).drop_last() =~= releases@.take(j as int));
                }
                if contains_str(&direct, releases[j].name.as_str()) {
                    let ghost before = upgraded@;
                    let name = releases[j].name.clone();
                    upgraded.push((name, releases[j].new_version.clone()));
                    proof {
                        assert(upgraded@.map_values(|d: (String, Version)| (d.0@, d.1@)) =~= before.map_values(
                            |d: (String, Version)| (d.0@, d.1@),
                        ).push((releases@[j as int].name@, releases@[j as int].new_version@)));
                    }
                }
                j = j + 1;
            }
            proof {
                assert(releases@.take(releases@.len() as int) =~= releases@);
            }
            let ghost ups = upgraded_deps(releases@, views(direct@));
            let ghost added = ups.map_values(|d: (Seq<char>, VersionView)| dependency_item(release.name@, template@, d));
            let ghost before = aggregator.items();
            if upgraded.len() > 0 {
                aggregator.add_dependency_update_entries(release.name.as_str(), &upgraded, template);
                proof {
                    assert forall|x: int| 0 <= x < upgraded@.len() implies (upgraded@[x].0@, upgraded@[x].1@) == ups[x] by {
                        assert(upgraded@.map_values(|d: (String, Version)| (d.0@, d.1@))[x] == ups[x]);
                    }
                    assert(upgraded@.map_values(
                        |d: (String, Version)| (release.name@, (ChangeCategory::Changed, dependency_line(template@, d.0@, version_text(d.1@)), None::<Seq<char>>)),
                    ) =~= added);
                }
            } else {
                proof {
                    assert(added =~= Seq::<(Seq<char>, (ChangeCategory, Seq<char>, Option<Seq<char>>))>::empty());
                }
            }
            proof {
                assert(aggregator.items() =~= before + added);
                assert(aggregator.items() =~= old(aggregator).items() + dependency_items(releases@, (i + 1) as nat, edges, template@));
            }
        }
        i = i + 1;
    }
}

/// The changesets after the configured treatment of `none` bumps: promoted
/// to patches, or left as they are.
pub open spec fn processed_changesets(cs: Seq<ChangesetView>, behavior: NoneBumpBehavior, message: Seq<char>) -> Seq<ChangesetView> {
    if behavior == NoneBumpBehavior::PromoteToPatch {
        promote_spec(cs, message)
    } else {
        cs
    }
}

/// The `none` bumps are refused: the configuration disallows them and some
/// package is named only with `none`.
pub open spec fn none_bump_refused(cs: Seq<ChangesetView>, behavior: NoneBumpBehavior) -> bool {
    behavior == NoneBumpBehavior::Disallow && exists|n: Seq<char>| none_only(cs, n)
}

/// The releases the changesets ask for, each package as its configuration
/// says, then the configured graduations that no changeset names.
pub open spec fn base_plan_spec(
    cs: Seq<ChangesetView>,
    pkgs: Seq<PackageInfo>,
    m: NameMap<PackageReleaseConfig>,
    zero: ZeroVersionBehavior,
) -> Seq<PackageVersionView> {
    configured_plan_spec(aggregate_spec(flat_releases(cs)), pkgs, m, zero).0 + graduation_only_spec(
        aggregate_spec(flat_releases(cs)),
        pkgs,
        m,
        zero,
        pkgs.len() as int,
    )
}

/// What a release that is not a pre-release graduation plans: `releases`
/// are the planned releases of the processed changesets followed by the
/// dependents they cause, and the items are those of the processed
/// changesets, of the changesets consumed by earlier pre-releases and of
/// the dependency updates.
pub open spec fn normal_plan_spec(
    cs: Seq<ChangesetView>,
    consumed: Seq<ChangesetView>,
    pkgs: Seq<PackageInfo>,
    m: NameMap<PackageReleaseConfig>,
    config: RootChangesetConfig,
    edges: Seq<(Seq<char>, Seq<char>)>,
    releases: Seq<PackageVersion>,
    items: Seq<(Seq<char>, (ChangeCategory, Seq<char>, Option<Seq<char>>))>,
) -> bool {
    let processed = processed_changesets(cs, config.none_bump_behavior, promote_message_spec(config));
    &&& exists|base: Seq<PackageVersion>|
        package_version_views(base) == base_plan_spec(processed, pkgs, m, config.zero_version_behavior) && expands_to(
            base,
            releases,
            edges,
            pkgs,
            config.zero_version_behavior,
        )
    &&& items == all_items(processed) + all_items(consumed) + dependency_items(
        releases,
        releases.len(),
        edges,
        config.dependency_bump_changelog_template@,
    )
}

/// Plans a release that is not a pre-release graduation, from the pending
/// changesets, the changesets consumed by earlier pre-releases and the
/// dependency graph: refuses `none` bumps where the configuration says so
/// and versions that cannot be bumped.
pub fn plan_normal_release(
    changesets: Vec<Changeset>,
    consumed: &Vec<Changeset>,
    packages: &Vec<PackageInfo>,
    per_package: &NameMap<PackageReleaseConfig>,
    root_config: &RootChangesetConfig,
    graph: &WorkspaceDependencyGraph,
) -> (r: Result<(Vec<PackageVersion>, ChangesetAggregator)>)
    requires
        per_package.wf(),
    ensures
        r is Err <==> (none_bump_refused(changeset_views(changesets@), root_config.none_bump_behavior) || !all_bumps_fit(
            packages@,
        )),
        r matches Err(e) ==> if none_bump_refused(changeset_views(changesets@), root_config.none_bump_behavior) {
            e matches OperationError::NoneBumpDisallowed { packages: ps } && strictly_sorted(views(ps@)) && forall|n: Seq<char>|
                views(ps@).contains(n) <==> none_only(changeset_views(changesets@), n)
        } else {
            e is VersionOverflow
        },
        r matches Ok(p) ==> normal_plan_spec(
            changeset_views(changesets@),
            changeset_views(consumed@),
            packages@,
            *per_package,
            *root_config,
            edge_views(graph.edges@),
            p.0@,
            p.1.items(),
        ),
{
    let ghost cs = changeset_views(changesets@);
    let processed = apply_none_bump_behavior(changesets, root_config.none_bump_behavior, root_config.promote_message())?;
    if !bumps_fit(packages) {
        return Err(OperationError::VersionOverflow);
    }
    let mut aggregator = ChangesetAggregator::new();
    aggregate_changesets(&mut aggregator, &processed);
    aggregate_changesets(&mut aggregator, consumed);
    let plan = VersionPlanner::plan_releases_per_package(&processed, packages, per_package, root_config.zero_version_behavior);
    let ghost base = plan.releases@;
    let expanded = expand_with_reverse_dependencies(plan.releases, graph, packages, root_config.zero_version_behavior);
    populate_dependency_update_entries(&expanded, graph, root_config.dependency_bump_changelog_template.as_str(), &mut aggregator);
    proof {
        assert(changeset_views(processed@) == processed_changesets(cs, root_config.none_bump_behavior, promote_message_spec(*root_config)));
        assert(package_version_views(base) == base_plan_spec(changeset_views(processed@), packages@, *per_package, root_config.zero_version_behavior));
    }
    Ok((expanded, aggregator))
}

/// The remote information a release links its changelogs with:
/// `Disabled` asks for none; `Auto` uses the remote when it can be read
/// and understood; `Enabled` requires it.
pub fn repo_info_from_remote(setting: ComparisonLinks, remote: Result<Option<String>>) -> (r: Result<Option<RepositoryInfo>>)
    ensures
        setting == ComparisonLinks::Disabled ==> r matches Ok(None),
        setting == ComparisonLinks::Auto ==> match remote {
            Ok(Some(url)) => match repository_spec(url@) {
                Some(t) => r matches Ok(Some(i)) && (i.host@, i.owner@, i.repo@) == t,
                None => r matches Ok(None),
            },
            _ => r matches Ok(None),
        },
        setting == ComparisonLinks::Enabled ==> match remote {
            Ok(Some(url)) => match repository_spec(url@) {
                Some(t) => r matches Ok(Some(i)) && (i.host@, i.owner@, i.repo@) == t,
                None => r matches Err(OperationError::ComparisonLinksRequired),
            },
            Ok(None) => r matches Err(OperationError::ComparisonLinksRequired),
            Err(e) => r == Err::<Option<RepositoryInfo>, OperationError>(e),
        },
{
    match setting {
        ComparisonLinks::Disabled => Ok(None),
        ComparisonLinks::Auto => match remote {
            Ok(Some(url)) => Ok(RepositoryInfo::from_url(url.as_str())),
            _ => Ok(None),
        },
        ComparisonLinks::Enabled => match remote {
            Ok(Some(url)) => match RepositoryInfo::from_url(url.as_str()) {
                Some(info) => Ok(Some(info)),
                None => Err(OperationError::ComparisonLinksRequired),
            },
            Ok(None) => Err(OperationError::ComparisonLinksRequired),
            Err(e) => Err(e),
        },
    }
}

/// Reads the remote, unless comparison links are disabled, and derives the
/// repository information from it.
pub fn resolve_repo_info<G: GitStatusProvider>(git: &G, project_root: &str, setting: ComparisonLinks) -> (r: Result<
    Option<RepositoryInfo>,
>)
    ensures
        setting == ComparisonLinks::Disabled ==> r matches Ok(None),
        setting == ComparisonLinks::Auto ==> r is Ok,
        r matches Err(e) ==> setting == ComparisonLinks::Enabled,
{
    if setting == ComparisonLinks::Disabled {
        return Ok(None);
    }
    let remote = git.remote_url(project_root);
    repo_info_from_remote(setting, remote)
}

/// Refuses inherited versions unless they are to be converted.
pub fn require_convert(inherited: Vec<String>, convert_inherited: bool) -> (r: Result<Vec<String>>)
    ensures
        (inherited@.len() == 0 || convert_inherited) ==> r == Ok::<Vec<String>, OperationError>(inherited),
        (inherited@.len() > 0 && !convert_inherited) ==> r == Err::<Vec<String>, OperationError>(
            OperationError::InheritedVersionsRequireConvert { packages: inherited },
        ),
{
    if inherited.len() > 0 && !convert_inherited {
        return Err(OperationError::InheritedVersionsRequireConvert { packages: inherited });
    }
    Ok(inherited)
}

/// The classification of a release.
pub open spec fn classification_spec(pkgs: Seq<PackageInfo>, input: ReleaseInput, m: NameMap<PackageReleaseConfig>) -> ReleaseClassification {
    ReleaseClassification {
        is_prerelease_graduation: prerelease_graduation_spec(pkgs, m),
        is_graduating: prerelease_graduation_spec(pkgs, m) || zero_graduation_spec(pkgs, input, m),
        is_prerelease_release: prerelease_configured_spec(input, m),
    }
}

/// What a release gathered before it plans.
pub struct ReleaseContext {
    pub project: CargoProject,
    pub root_config: RootChangesetConfig,
    pub changeset_dir: String,
    pub changeset_files: Vec<String>,
    pub prerelease_state: Option<PrereleaseState>,
    pub graduation_state: Option<GraduationState>,
    pub per_package_config: NameMap<PackageReleaseConfig>,
    pub classification: ReleaseClassification,
    pub git_options: GitOptions,
    pub inherited_packages: Vec<String>,
}

impl ReleaseContext {
    /// The context of a release that goes on, for this input: the
    /// classification and git options follow from it, the release is not
    /// an early return, and inherited versions are to be converted.
    pub open spec fn ready_for(&self, input: ReleaseInput) -> bool {
        &&& self.per_package_config.wf()
        &&& (self.prerelease_state matches Some(s) ==> s.wf())
        &&& (self.graduation_state matches Some(g) ==> g.wf())
        &&& self.changeset_dir@ == path_join_spec(self.project.root@, self.root_config.changeset_dir@)
        &&& self.classification == classification_spec(self.project.packages@, input, self.per_package_config)
        &&& self.git_options == git_options_spec(input, self.root_config.git_config)
        &&& early_return_spec(self.changeset_files@.len() == 0, self.classification.is_graduating, input, self.per_package_config)
            == EarlyReturnDecision::Continue
        &&& (self.inherited_packages@.len() > 0 ==> input.spec_convert_inherited())
    }
}

/// What a release reports of its plan: every listed changeset is consumed,
/// the packages it does not release are reported unchanged, and the
/// planned releases are the graduation plan for a pre-release graduation
/// and otherwise the plan of that many changesets.
pub open spec fn plans_release(ctx: ReleaseContext, out: ReleaseOutput) -> bool {
    &&& out.changesets_consumed@ == ctx.changeset_files@
    &&& views(out.unchanged_packages@) == unchanged_spec(ctx.project.packages@, planned_names(out.planned_releases@))
    &&& (ctx.classification.is_prerelease_graduation ==> package_version_views(out.planned_releases@) == graduation_plan_spec(
        ctx.project.packages@,
        ctx.root_config.zero_version_behavior,
        ctx.project.packages@.len() as int,
    ))
    &&& (!ctx.classification.is_prerelease_graduation ==> exists|
        cs: Seq<ChangesetView>,
        consumed: Seq<ChangesetView>,
        edges: Seq<(Seq<char>, Seq<char>)>,
        items: Seq<(Seq<char>, (ChangeCategory, Seq<char>, Option<Seq<char>>))>,
    |
        cs.len() == ctx.changeset_files@.len() && normal_plan_spec(
            cs,
            consumed,
            ctx.project.packages@,
            ctx.per_package_config,
            ctx.root_config,
            edges,
            out.planned_releases@,
            items,
        ))
}

/// The changelogs a release wrote, in order, are the planned writes of the
/// changelog items `items` for the planned releases, on some release date:
/// each names the package and the version of its write.
pub open spec fn changelogs_written(
    ctx: ReleaseContext,
    items: Seq<(Seq<char>, (ChangeCategory, Seq<char>, Option<Seq<char>>))>,
    planned: Seq<PackageVersion>,
    updates: Seq<ChangelogUpdate>,
) -> bool {
    exists|date: ReleaseDate|
        #![trigger changelog_writes_spec(ctx.root_config.changelog_config.changelog, ctx.project.root@, items, planned, ctx.project.packages@, date)]
        {
            let writes = changelog_writes_spec(
                ctx.root_config.changelog_config.changelog,
                ctx.project.root@,
                items,
                planned,
                ctx.project.packages@,
                date,
            );
            &&& updates.len() == writes.len()
            &&& forall|i: int|
                0 <= i < updates.len() ==> crate::model::opt_view((#[trigger] updates[i]).package) == writes[i].package
                    && updates[i].version@ == writes[i].version
        }
}

/// A release that is not a dry run wrote the changelogs of its plan: for a
/// pre-release graduation, the items of the listed and the consumed
/// changesets; otherwise the items of the plan of the listed changesets.
pub open spec fn release_written(ctx: ReleaseContext, out: ReleaseOutput) -> bool {
    &&& (ctx.classification.is_prerelease_graduation ==> exists|cs: Seq<ChangesetView>, consumed: Seq<ChangesetView>|
        #![trigger all_items(cs), all_items(consumed)]
        cs.len() == ctx.changeset_files@.len() && changelogs_written(
            ctx,
            all_items(cs) + all_items(consumed),
            out.planned_releases@,
            out.changelog_updates@,
        ))
    &&& (!ctx.classification.is_prerelease_graduation ==> exists|
        cs: Seq<ChangesetView>,
        consumed: Seq<ChangesetView>,
        edges: Seq<(Seq<char>, Seq<char>)>,
        items: Seq<(Seq<char>, (ChangeCategory, Seq<char>, Option<Seq<char>>))>,
    |
        #![trigger normal_plan_spec(cs, consumed, ctx.project.packages@, ctx.per_package_config, ctx.root_config, edges, out.planned_releases@, items)]
        cs.len() == ctx.changeset_files@.len() && normal_plan_spec(
            cs,
            consumed,
            ctx.project.packages@,
            ctx.per_package_config,
            ctx.root_config,
            edges,
            out.planned_releases@,
            items,
        ) && changelogs_written(ctx, items, out.planned_releases@, out.changelog_updates@))
}

/// A release either goes on with its context or ends early.
pub enum PrepareResult {
    Ready(Box<ReleaseContext>),
    EarlyReturn(ReleaseOutcome),
}

/// A planned release: what it reports, each package's directory, and the
/// changelogs as they were before it wrote them.
pub struct PlannedRelease {
    pub output: ReleaseOutput,
    pub package_paths: Vec<(String, String)>,
    pub changelog_backups: Vec<ChangelogFileState>,
}

/// The paths of changelog backups.
pub open spec fn backup_paths(b: Seq<ChangelogFileState>) -> Seq<Seq<char>> {
    b.map_values(|f: ChangelogFileState| f.path@)
}

fn clone_updates(v: &Vec<ChangelogUpdate>) -> (r: Vec<ChangelogUpdate>)
    ensures
        r@ == v@,
{
    let mut r: Vec<ChangelogUpdate> = Vec::new();
    let mut i: usize = 0;
    while i < v.len()
        invariant
            i <= v.len(),
            r@ == v@.take(i as int),
        decreases v.len() - i,
    {
        let u = &v[i];
        r.push(
            ChangelogUpdate {
                path: u.path.clone(),
                package: crate::model::clone_opt_string(&u.package),
                version: u.version.clone(),
                created: u.created,
            },
        );
        proof {
            assert(r@ =~= v@.take(i + 1));
        }
        i = i + 1;
    }
    proof {
        assert(v@.take(v@.len() as int) =~= v@);
    }
    r
}

/// Releases the packages that the pending changesets ask for: plans the
/// versions, writes changelogs, and runs the release steps, undoing them
/// when one fails.
pub struct ReleaseOperation<P, RW, M, C, G, S> {
    project_provider: P,
    changeset_io: Arc<RW>,
    manifest_writer: Arc<M>,
    changelog_writer: Arc<C>,
    git_provider: Arc<G>,
    release_state_io: Arc<S>,
}

impl<
    P: ProjectProvider + DependencyGraphProvider,
    RW: ChangesetReader + ChangesetWriter,
    M: ManifestWriter,
    C: ChangelogWriter,
    G: GitProvider,
    S: ReleaseStateIO,
> ReleaseOperation<P, RW, M, C, G, S> {
    pub closed spec fn parts(&self) -> (P, RW, M, C, G, S) {
        (
            self.project_provider,
            *self.changeset_io,
            *self.manifest_writer,
            *self.changelog_writer,
            *self.git_provider,
            *self.release_state_io,
        )
    }

    pub fn new(
        project_provider: P,
        changeset_io: RW,
        manifest_writer: M,
        changelog_writer: C,
        git_provider: G,
        release_state_io: S,
    ) -> (r: Self)
        ensures
            r.parts() == (project_provider, changeset_io, manifest_writer, changelog_writer, git_provider, release_state_io),
    {
        ReleaseOperation {
            project_provider,
            changeset_io: Arc::new(changeset_io),
            manifest_writer: Arc::new(manifest_writer),
            changelog_writer: Arc::new(changelog_writer),
            git_provider: Arc::new(git_provider),
            release_state_io: Arc::new(release_state_io),
        }
    }

    /// The manifest writer the release writes versions with.
    pub fn manifest_writer(&self) -> (r: &M)
        ensures
            *r == self.parts().2,
    {
        &*self.manifest_writer
    }

    /// The git provider the release commits and tags with.
    pub fn git_provider(&self) -> (r: &G)
        ensures
            *r == self.parts().4,
    {
        &*self.git_provider
    }

    /// Saves each changelog the release may write: whether it existed and
    /// its text; a changelog that exists but cannot be read fails the
    /// release with `ChangelogFileRead`.
    fn capture_changelog_state(&self, ctx: &ReleaseContext, planned: &Vec<PackageVersion>) -> (r: Result<
        Vec<ChangelogFileState>,
    >)
        ensures
            r matches Ok(b) ==> backup_paths(b@) == capture_paths_spec(
                ctx.root_config.changelog_config.changelog,
                ctx.project.root@,
                planned@,
                ctx.project.packages@,
            ) && forall|i: int| 0 <= i < b@.len() ==> ((#[trigger] b@[i]).file_existed <==> b@[i].original_content is Some),
            r matches Err(e) ==> e is ChangelogFileRead,
    {
        let paths = changelog_paths(
            ctx.root_config.changelog_config.changelog,
            ctx.project.root.as_str(),
            planned,
            &ctx.project.packages,
        );
        let mut backups: Vec<ChangelogFileState> = Vec::new();
        let mut i: usize = 0;
        while i < paths.len()
            invariant
                i <= paths.len(),
                backup_paths(backups@) == views(paths@.take(i as int)),
                forall|k: int| 0 <= k < backups@.len() ==> ((#[trigger] backups@[k]).file_existed <==> backups@[k].original_content is Some),
            decreases paths.len() - i,
        {
            let path = &paths[i];
            let existed = self.changelog_writer.changelog_exists(path.as_str());
            let original_content = if existed {
                match self.changelog_writer.read_changelog(path.as_str()) {
                    Ok(text) => Some(text),
                    Err(_) => {
                        return Err(OperationError::ChangelogFileRead { path: path.clone() });
                    },
                }
            } else {
                None
            };
            let ghost before = backups@;
            backups.push(ChangelogFileState { path: path.clone(), original_content, file_existed: existed });
            proof {
                assert(backup_paths(backups@) =~= backup_paths(before).push(paths@[i as int]@));
                assert(views(paths@.take(i + 1)) =~= views(paths@.take(i as int)).push(paths@[i as int]@));
                assert forall|k: int| 0 <= k < backups@.len() implies ((#[trigger] backups@[k]).file_existed <==> backups@[k].original_content is Some) by {
                    if k < before.len() {
                        assert(backups@[k] == before[k]);
                    }
                }
            }
            i = i + 1;
        }
        proof {
            assert(paths@.take(paths@.len() as int) =~= paths@);
        }
        Ok(backups)
    }

    /// Writes the planned changelog releases, in order, and reports each
    /// file written with the package and version it is about.
    #[verifier::loop_isolation(false)]
    fn generate_changelog_updates(
        &self,
        ctx: &ReleaseContext,
        aggregator: &ChangesetAggregator,
        planned: &Vec<PackageVersion>,
    ) -> (r: Result<Vec<ChangelogUpdate>>)
        ensures
            r matches Ok(u) ==> exists|date: ReleaseDate|
                #![trigger changelog_writes_spec(ctx.root_config.changelog_config.changelog, ctx.project.root@, aggregator.items(), planned@, ctx.project.packages@, date)]
                {
                    let writes = changelog_writes_spec(
                        ctx.root_config.changelog_config.changelog,
                        ctx.project.root@,
                        aggregator.items(),
                        planned@,
                        ctx.project.packages@,
                        date,
                    );
                    &&& u@.len() == writes.len()
                    &&& forall|i: int|
                        0 <= i < u@.len() ==> crate::model::opt_view((#[trigger] u@[i]).package) == writes[i].package
                            && u@[i].version@ == writes[i].version
                },
            ctx.root_config.changelog_config.comparison_links != ComparisonLinks::Enabled && (forall|date: ReleaseDate|
                #[trigger] changelog_writes_spec(
                    ctx.root_config.changelog_config.changelog,
                    ctx.project.root@,
                    aggregator.items(),
                    planned@,
                    ctx.project.packages@,
                    date,
                ).len() == 0) ==> (r matches Ok(u) && u@.len() == 0),
    {
        let date = today();
        let repo_info = resolve_repo_info(
            &*self.git_provider,
            ctx.project.root.as_str(),
            ctx.root_config.changelog_config.comparison_links,
        )?;
        let writes = plan_changelog_writes(
            ctx.root_config.changelog_config.changelog,
            ctx.project.root.as_str(),
            aggregator,
            planned,
            &ctx.project.packages,
            date,
        );
        let ghost wv = write_views(writes@);
        let mut updates: Vec<ChangelogUpdate> = Vec::new();
        let mut i: usize = 0;
        while i < writes.len()
            invariant
                i <= writes.len(),
                wv == write_views(writes@),
                updates@.len() == i,
                forall|k: int|
                    0 <= k < i ==> crate::model::opt_view((#[trigger] updates@[k]).package) == wv[k].package
                        && updates@[k].version@ == wv[k].version,
            decreases writes.len() - i,
        {
            let w = &writes[i];
            let previous = match &w.previous_version {
                Some(p) => Some(p.as_str()),
                None => None,
            };
            let result = self.changelog_writer.write_release(w.path.as_str(), &w.release, repo_info.as_ref(), previous)?;
            let ghost before = updates@;
            updates.push(
                ChangelogUpdate::new(result.path, crate::model::clone_opt_string(&w.package), w.release.version.clone(), result.created),
            );
            proof {
                assert forall|k: int|
                    0 <= k < i + 1 implies crate::model::opt_view((#[trigger] updates@[k]).package) == wv[k].package
                        && updates@[k].version@ == wv[k].version by {
                    if k < i {
                        assert(updates@[k] == before[k]);
                    }
                }
            }
            i = i + 1;
        }
        Ok(updates)
    }

    /// Refuses a dirty working tree when the release commits for real.
    fn validate_working_tree(&self, project_root: &str, should_commit: bool, dry_run: bool) -> (r: Result<()>)
        ensures
            !(should_commit && !dry_run) ==> r is Ok,
            r matches Err(e) ==> should_commit && !dry_run,
    {
        if should_commit && !dry_run {
            let is_clean = self.git_provider.is_working_tree_clean(project_root)?;
            if !is_clean {
                return Err(OperationError::DirtyWorkingTree);
            }
        }
        Ok(())
    }

    /// The packages with inherited versions, which the release may only
    /// convert when asked to.
    fn check_inherited_versions(&self, packages: &Vec<PackageInfo>, convert_inherited: bool) -> (r: Result<Vec<String>>)
        ensures
            r matches Ok(v) ==> (v@.len() > 0 ==> convert_inherited),
            packages@.len() == 0 ==> (r matches Ok(v) && v@.len() == 0),
    {
        let inherited = find_packages_with_inherited_versions(&*self.manifest_writer, packages)?;
        require_convert(inherited, convert_inherited)
    }

    /// Runs a release: ends early when there is nothing to release, plans
    /// it, and, unless it is a dry run, writes changelogs and runs the
    /// release steps.
    pub fn execute(&self, start_path: &str, input: &ReleaseInput) -> (r: Result<ReleaseOutcome>)
        ensures
            r matches Ok(ReleaseOutcome::DryRun(out)) ==> input.spec_dry_run() && out.changelog_updates@.len() == 0
                && out.git_result is None,
            r matches Ok(ReleaseOutcome::Executed(out)) ==> !input.spec_dry_run() && out.git_result is Some,
            r matches Ok(ReleaseOutcome::NoChangesets) ==> !(prerelease_requested(*input) && !input.spec_force()),
            r matches Ok(ReleaseOutcome::DryRun(out)) ==> exists|ctx: ReleaseContext|
                #[trigger] ctx.ready_for(*input) && plans_release(ctx, out),
            r matches Ok(ReleaseOutcome::Executed(out)) ==> exists|ctx: ReleaseContext|
                #[trigger] ctx.ready_for(*input) && plans_release(ctx, out) && release_written(ctx, out),
    {
        let context = match self.prepare_release_context(start_path, input)? {
            PrepareResult::Ready(ctx) => *ctx,
            PrepareResult::EarlyReturn(outcome) => return Ok(outcome),
        };
        let plan = self.plan_release(&context, input.dry_run())?;
        proof {
            assert(context.ready_for(*input) && plans_release(context, plan.output));
        }
        if input.dry_run() {
            return Ok(ReleaseOutcome::DryRun(plan.output));
        }
        let result = self.execute_release(&context, plan);
        proof {
            if let Ok(ReleaseOutcome::Executed(out)) = &result {
                assert(plans_release(context, *out));
                assert(release_written(context, *out));
            }
        }
        result
    }

    /// Finds the project, reads the changeset list and the release state,
    /// validates the input and classifies the release.
    fn prepare_release_context(&self, start_path: &str, input: &ReleaseInput) -> (r: Result<PrepareResult>)
        ensures
            r matches Ok(PrepareResult::Ready(ctx)) ==> ctx.ready_for(*input),
            r matches Ok(PrepareResult::EarlyReturn(o)) ==> o is NoChangesets && !(prerelease_requested(*input)
                && !input.spec_force()),
    {
        let project = self.project_provider.discover_project(start_path)?;
        let (root_config, _) = self.project_provider.load_configs(&project)?;
        let changeset_dir = path_join(project.root.as_str(), root_config.changeset_dir.as_str());
        let changeset_files = self.changeset_io.list_changesets(changeset_dir.as_str())?;
        let prerelease_state = match self.release_state_io.load_prerelease_state(changeset_dir.as_str())? {
            Some(s) => Some(s.into_valid()),
            None => None,
        };
        let graduation_state = match self.release_state_io.load_graduation_state(changeset_dir.as_str())? {
            Some(g) => Some(g.into_valid()),
            None => None,
        };
        let valid_input = input.with_valid_config();
        let cli_input = ReleaseCliInput::from(&valid_input);
        let validated = match ReleaseValidator::validate(
            &cli_input,
            prerelease_state.as_ref(),
            graduation_state.as_ref(),
            &project.packages,
            &project.kind,
        ) {
            Ok(c) => c,
            Err(e) => {
                return Err(OperationError::ValidationFailed(e));
            },
        };
        let per_package_config = validated.into_per_package();
        let is_prerelease_graduation = is_prerelease_graduation(&project.packages, &per_package_config);
        let zero_graduation = is_zero_graduation(&project.packages, &valid_input, &per_package_config);
        let is_graduating = is_prerelease_graduation || zero_graduation;
        match check_early_return(&changeset_files, is_graduating, &valid_input, &per_package_config) {
            EarlyReturnDecision::NoChangesets => {
                proof {
                    if prerelease_requested(*input) && !input.spec_force() {
                        if input.spec_global_prerelease() is None {
                            let k = choose|k: Seq<char>|
                                #[trigger] input.spec_per_package_config().lookup(k) matches Some(c) && c.prerelease is Some;
                            assert(valid_input.spec_per_package_config().lookup(k) == input.spec_per_package_config().lookup(k));
                            assert(cli_input.spec_cli_prerelease().lookup(k) is Some);
                            let cfg = per_package_config.lookup(k)->0;
                            assert(per_package_config.lookup(k) is Some);
                            assert(cfg.prerelease is Some);
                            per_package_config.lemma_wf_facts();
                            let i = choose|i: int| 0 <= i < per_package_config.names().len() && per_package_config.names()[i] == k;
                            assert(per_package_config.pairs()[i].0 == k);
                            assert(per_package_config.lookup(per_package_config.pairs()[i].0) == Some(per_package_config.pairs()[i].1));
                            assert(config_has_prerelease(per_package_config));
                        }
                        assert(prerelease_configured_spec(valid_input, per_package_config));
                    }
                }
                return Ok(PrepareResult::EarlyReturn(ReleaseOutcome::NoChangesets));
            },
            EarlyReturnDecision::ForceRequired => {
                return Err(OperationError::NoChangesetsWithoutForce);
            },
            EarlyReturnDecision::Continue => {},
        }
        let git_options = git_options_for(&valid_input, &root_config.git_config);
        let is_prerelease_release = is_any_prerelease_configured(&valid_input, &per_package_config);
        self.validate_working_tree(project.root.as_str(), git_options.should_commit, valid_input.dry_run())?;
        let inherited_packages = self.check_inherited_versions(&project.packages, valid_input.convert_inherited())?;
        let context = ReleaseContext {
            project,
            root_config,
            changeset_dir,
            changeset_files,
            prerelease_state,
            graduation_state,
            per_package_config,
            classification: ReleaseClassification { is_prerelease_graduation, is_graduating, is_prerelease_release },
            git_options,
            inherited_packages,
        };
        proof {
            assert(context.ready_for(valid_input));
        }
        Ok(PrepareResult::Ready(Box::new(context)))
    }

    /// Reads each listed changeset.
    fn load_changesets(&self, paths: &Vec<String>) -> (r: Result<Vec<Changeset>>)
        ensures
            r matches Ok(v) ==> v@.len() == paths@.len(),
            paths@.len() == 0 ==> r is Ok,
    {
        let mut changesets: Vec<Changeset> = Vec::new();
        let mut i: usize = 0;
        while i < paths.len()
            invariant
                i <= paths.len(),
                changesets@.len() == i,
            decreases paths.len() - i,
        {
            let changeset = self.changeset_io.read_changeset(paths[i].as_str())?;
            changesets.push(changeset);
            i = i + 1;
        }
        Ok(changesets)
    }

    /// Plans the release: the versions, the packages left unchanged, and,
    /// unless it is a dry run, the changelogs, saved first and then written.
    fn plan_release(&self, ctx: &ReleaseContext, dry_run: bool) -> (r: Result<PlannedRelease>)
        requires
            ctx.per_package_config.wf(),
        ensures
            r matches Ok(p) ==> plans_release(*ctx, p.output),
            r matches Ok(p) ==> (!dry_run ==> release_written(*ctx, p.output)),
            r matches Ok(p) ==> {
                &&& p.output.changesets_consumed@ == ctx.changeset_files@
                &&& views(p.output.unchanged_packages@) == unchanged_spec(
                    ctx.project.packages@,
                    planned_names(p.output.planned_releases@),
                )
                &&& p.output.git_result is None
                &&& (ctx.classification.is_prerelease_graduation ==> package_version_views(p.output.planned_releases@)
                    == graduation_plan_spec(
                    ctx.project.packages@,
                    ctx.root_config.zero_version_behavior,
                    ctx.project.packages@.len() as int,
                ))
                &&& (!ctx.classification.is_prerelease_graduation ==> exists|
                    cs: Seq<ChangesetView>,
                    consumed: Seq<ChangesetView>,
                    edges: Seq<(Seq<char>, Seq<char>)>,
                    items: Seq<(Seq<char>, (ChangeCategory, Seq<char>, Option<Seq<char>>))>,
                |
                    cs.len() == ctx.changeset_files@.len() && normal_plan_spec(
                        cs,
                        consumed,
                        ctx.project.packages@,
                        ctx.per_package_config,
                        ctx.root_config,
                        edges,
                        p.output.planned_releases@,
                        items,
                    ))
                &&& (dry_run ==> p.output.changelog_updates@.len() == 0 && p.changelog_backups@.len() == 0)
                &&& (!dry_run ==> backup_paths(p.changelog_backups@) == capture_paths_spec(
                    ctx.root_config.changelog_config.changelog,
                    ctx.project.root@,
                    p.output.planned_releases@,
                    ctx.project.packages@,
                ))
                &&& names_unique(p.package_paths@)
                &&& forall|n: Seq<char>| #[trigger] path_of(p.package_paths@, n) == match package_by_name(ctx.project.packages@, n) {
                    Some(pk) => Some(pk.path),
                    None => None,
                }
            },
    {
        let changesets = self.load_changesets(&ctx.changeset_files)?;
        let consumed_paths = self.changeset_io.list_consumed_changesets(ctx.changeset_dir.as_str())?;
        let consumed = self.load_changesets(&consumed_paths)?;
        let ghost cs = changeset_views(changesets@);
        let ghost consumed_views = changeset_views(consumed@);
        let ghost mut plan_edges: Seq<(Seq<char>, Seq<char>)> = Seq::empty();
        let (planned, aggregator) = if ctx.classification.is_prerelease_graduation {
            let mut aggregator = ChangesetAggregator::new();
            aggregate_changesets(&mut aggregator, &changesets);
            aggregate_changesets(&mut aggregator, &consumed);
            proof {
                assert(aggregator.items() =~= all_items(cs) + all_items(consumed_views));
            }
            let plan = VersionPlanner::plan_graduation(&ctx.project.packages, ctx.root_config.zero_version_behavior);
            (plan.releases, aggregator)
        } else {
            let graph = self.project_provider.build_dependency_graph(&ctx.project)?;
            let ghost edges = edge_views(graph.edges@);
            let planned = plan_normal_release(
                changesets,
                &consumed,
                &ctx.project.packages,
                &ctx.per_package_config,
                &ctx.root_config,
                &graph,
            )?;
            proof {
                assert(cs.len() == ctx.changeset_files@.len());
                assert(normal_plan_spec(
                    cs,
                    changeset_views(consumed@),
                    ctx.project.packages@,
                    ctx.per_package_config,
                    ctx.root_config,
                    edges,
                    planned.0@,
                    planned.1.items(),
                ));
                plan_edges = edges;
            }
            planned
        };
        let package_paths = package_path_entries(&ctx.project.packages);
        let unchanged_packages = collect_unchanged_packages(&ctx.project.packages, &planned);
        let (changelog_updates, changelog_backups) = if dry_run {
            (Vec::new(), Vec::new())
        } else {
            let backups = self.capture_changelog_state(ctx, &planned)?;
            let updates = self.generate_changelog_updates(ctx, &aggregator, &planned)?;
            (updates, backups)
        };
        proof {
            if !dry_run {
                assert(changelogs_written(*ctx, aggregator.items(), planned@, changelog_updates@));
            }
        }
        let output = ReleaseOutput::new(
            planned,
            unchanged_packages,
            clone_strings(&ctx.changeset_files),
            changelog_updates,
            None,
        );
        proof {
            if !dry_run {
                if ctx.classification.is_prerelease_graduation {
                    assert(changelogs_written(
                        *ctx,
                        all_items(cs) + all_items(consumed_views),
                        output.planned_releases@,
                        output.changelog_updates@,
                    ));
                } else {
                    assert(normal_plan_spec(
                        cs,
                        consumed_views,
                        ctx.project.packages@,
                        ctx.per_package_config,
                        ctx.root_config,
                        plan_edges,
                        output.planned_releases@,
                        aggregator.items(),
                    ));
                }
                assert(release_written(*ctx, output));
            }
        }
        Ok(PlannedRelease { output, package_paths, changelog_backups })
    }

    /// Runs the release steps on the plan and reports what they did in git.
    fn execute_release(&self, ctx: &ReleaseContext, plan: PlannedRelease) -> (r: Result<ReleaseOutcome>)
        requires
            ctx.prerelease_state matches Some(s) ==> s.wf(),
            ctx.graduation_state matches Some(g) ==> g.wf(),
        ensures
            r matches Ok(o) ==> o matches ReleaseOutcome::Executed(out) && out.git_result is Some
                && out.planned_releases == plan.output.planned_releases && out.unchanged_packages
                == plan.output.unchanged_packages && out.changesets_consumed == plan.output.changesets_consumed
                && out.changelog_updates == plan.output.changelog_updates,
    {
        let data = ReleaseSagaData::new(
            ctx.changeset_dir.clone(),
            path_join(ctx.project.root.as_str(), "Cargo.toml"),
            clone_package_versions(&plan.output.planned_releases),
            plan.package_paths,
            clone_updates(&plan.output.changelog_updates),
            clone_strings(&ctx.changeset_files),
        ).with_options(SagaReleaseOptions { classification: ctx.classification, git_options: ctx.git_options }).with_inherited_packages(
            clone_strings(&ctx.inherited_packages),
        ).with_prerelease_state(ctx.prerelease_state.as_ref()).with_graduation_state(ctx.graduation_state.as_ref()).with_changelog_backups(
            plan.changelog_backups,
        );
        let result = self.execute_release_saga(ctx, data)?;
        Ok(ReleaseOutcome::Executed(plan.output.with_git_result(result.into_git_result())))
    }

    /// The release steps, set up from the git configuration: tags carry
    /// the package name in workspaces, and in single-package projects when
    /// the configuration asks for it.
    fn execute_release_saga(&self, ctx: &ReleaseContext, data: ReleaseSagaData) -> (r: Result<ReleaseSagaData>)
        ensures
            r matches Err(e) ==> (e is SagaFailed || e is SagaCompensationFailed),
            r matches Ok(out) ==> crate::saga::saga_chain(data, out),
            r matches Err(e) ==> exists|k: int, ds: Seq<ReleaseSagaData>|
                #[trigger] crate::saga::saga_failed_at(data, ds, k) && match e {
                    OperationError::SagaFailed { step, .. } => step@ == crate::saga::step_name_spec(k) && forall|jj: int|
                        0 <= jj < k ==> !#[trigger] crate::saga::undo_certainly_fails(jj, ds[jj]),
                    OperationError::SagaCompensationFailed { step, compensation_failures, .. } => step@
                        == crate::saga::step_name_spec(k) && compensation_failures@.len() > 0
                        && crate::saga::compensation_record(compensation_failures@, k, ds),
                    _ => false,
                },
    {
        let git = &ctx.root_config.git_config;
        let use_crate_prefix = match ctx.project.kind {
            ProjectKind::SinglePackage => match git.tag_format {
                TagFormat::CratePrefixed => true,
                TagFormat::VersionOnly => false,
            },
            ProjectKind::VirtualWorkspace | ProjectKind::WorkspaceWithRoot => true,
        };
        let saga: ReleaseSaga<G, M, RW, S, C> = ReleaseSaga::new(
            git.commit_title_template.clone(),
            git.changes_in_body,
            git.tag_format,
            use_crate_prefix,
        );
        let saga_context = self.create_saga_context(ctx.project.root.as_str());
        saga.execute(&saga_context, data)
    }

    /// The services the release steps work through, shared with this operation.
    fn create_saga_context(&self, project_root: &str) -> (r: ReleaseSagaContext<G, M, RW, S, C>)
        ensures
            r.root() == project_root@,
    {
        ReleaseSagaContext::new(
            crate::text::owned(project_root),
            self.git_provider.clone(),
            self.manifest_writer.clone(),
            self.changeset_io.clone(),
            self.release_state_io.clone(),
            self.changelog_writer.clone(),
        )
    }
}

} // verus!

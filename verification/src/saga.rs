//! The steps of a release, each with the compensation that undoes it, and
//! the data they pass along.
use vstd::prelude::*;

use std::marker::PhantomData;
use std::sync::Arc;

use crate::error::{CompensationFailure, OperationError, Result};
use crate::manage::{queue_after_removals, tags_after_removals};
use crate::model::{planned_names, PackageVersion};
use crate::paths::{path_join, path_join_spec};
use crate::release_state::{GraduationState, PrereleaseState};
use crate::release_types::{
    ChangelogFileState, ChangelogUpdate, ChangesetFileState, CommitResult, GitOperationResult, GitOptions,
    GraduationStateUpdate, PrereleaseStateUpdate, ReleaseClassification, SagaReleaseOptions, TagResult,
};
use crate::text::{owned, views};
use crate::traits::{
    ChangelogWriter, ChangesetReader, ChangesetWriter, GitProvider, ManifestWriter, ReleaseStateIO,
};
use crate::version::{is_prerelease, is_prerelease_spec, Version, VersionView};

verus! {

/// The services the release steps work through, shared with the operation.
pub struct ReleaseSagaContext<G, M, RW, S, C> {
    project_root: String,
    git_provider: Arc<G>,
    manifest_writer: Arc<M>,
    changeset_rw: Arc<RW>,
    release_state_io: Arc<S>,
    changelog_writer: Arc<C>,
}

impl<
    G: GitProvider,
    M: ManifestWriter,
    RW: ChangesetReader + ChangesetWriter,
    S: ReleaseStateIO,
    C: ChangelogWriter,
> ReleaseSagaContext<G, M, RW, S, C> {
    /// The project root the steps work in.
    pub closed spec fn root(&self) -> Seq<char> {
        self.project_root@
    }

    pub fn new(
        project_root: String,
        git_provider: Arc<G>,
        manifest_writer: Arc<M>,
        changeset_rw: Arc<RW>,
        release_state_io: Arc<S>,
        changelog_writer: Arc<C>,
    ) -> (r: Self)
        ensures
            r.root() == project_root@,
            r.services() == (*git_provider, *manifest_writer, *changeset_rw, *release_state_io, *changelog_writer),
    {
        ReleaseSagaContext { project_root, git_provider, manifest_writer, changeset_rw, release_state_io, changelog_writer }
    }

    pub fn project_root(&self) -> (r: &str)
        ensures
            r@ == self.root(),
    {
        self.project_root.as_str()
    }

    /// The services, in the order `new` takes them.
    pub closed spec fn services(&self) -> (G, M, RW, S, C) {
        (*self.git_provider, *self.manifest_writer, *self.changeset_rw, *self.release_state_io, *self.changelog_writer)
    }

    pub fn git_provider(&self) -> (r: &G)
        ensures
            *r == self.services().0,
    {
        &self.git_provider
    }

    pub fn manifest_writer(&self) -> (r: &M)
        ensures
            *r == self.services().1,
    {
        &self.manifest_writer
    }

    pub fn changeset_rw(&self) -> (r: &RW)
        ensures
            *r == self.services().2,
    {
        &self.changeset_rw
    }

    pub fn release_state_io(&self) -> (r: &S)
        ensures
            *r == self.services().3,
    {
        &self.release_state_io
    }

    pub fn changelog_writer(&self) -> (r: &C)
        ensures
            *r == self.services().4,
    {
        &self.changelog_writer
    }
}

impl<
    G: GitProvider,
    M: ManifestWriter,
    RW: ChangesetReader + ChangesetWriter,
    S: ReleaseStateIO,
    C: ChangelogWriter,
> Clone for ReleaseSagaContext<G, M, RW, S, C> {
    /// Another handle on the same services, for the same project root.
    fn clone(&self) -> (r: Self)
        ensures
            r.root() == self.root(),
    {
        ReleaseSagaContext {
            project_root: self.project_root.clone(),
            git_provider: self.git_provider.clone(),
            manifest_writer: self.manifest_writer.clone(),
            changeset_rw: self.changeset_rw.clone(),
            release_state_io: self.release_state_io.clone(),
            changelog_writer: self.changelog_writer.clone(),
        }
    }
}

/// A package manifest whose version a release wrote.
#[derive(Debug, Clone)]
pub struct ManifestUpdate {
    pub manifest_path: String,
    pub old_version: Version,
    pub new_version: Version,
    pub written: bool,
}

/// A dependency requirement a release changed in a manifest.
#[derive(Debug, Clone)]
pub struct DependencyUpdate {
    pub manifest_path: String,
    pub dependency_name: String,
    pub old_version: Version,
    pub new_version: Version,
}

/// The manifest of an additional package, where its version is written.
#[derive(Debug, Clone)]
pub struct AdditionalManifestInfo {
    pub manifest_path: String,
    pub format: crate::config::ManifestFormat,
    pub version_field_path: String,
}

/// A version to write into the manifest of an additional package that
/// tracks a released dependency.
#[derive(Debug, Clone)]
pub struct VersionTrackingWrite {
    pub manifest_path: String,
    pub format: crate::config::ManifestFormat,
    pub version_field_path: String,
    pub new_dependency_version: Version,
}

/// What the steps of a release pass along: the plan, and what each step
/// did, so that compensations can undo it.
#[derive(Debug, Clone)]
pub struct ReleaseSagaData {
    pub changeset_dir: String,
    pub root_manifest_path: String,
    pub inherited_packages: Vec<String>,
    pub planned_releases: Vec<PackageVersion>,
    /// Each package's directory, by name.
    pub package_paths: Vec<(String, String)>,
    /// The manifest of each additional package, by name.
    pub additional_package_manifests: Vec<(String, AdditionalManifestInfo)>,
    pub changelog_updates: Vec<ChangelogUpdate>,
    pub classification: ReleaseClassification,
    pub git_options: GitOptions,
    pub prerelease_state_update: Option<PrereleaseStateUpdate>,
    pub graduation_state_update: Option<GraduationStateUpdate>,
    pub changeset_files: Vec<ChangesetFileState>,
    pub manifest_updates: Vec<ManifestUpdate>,
    pub dependency_updates: Vec<DependencyUpdate>,
    pub workspace_version_removed: bool,
    pub original_workspace_version: Option<Version>,
    pub staged_files: Vec<String>,
    pub files_were_staged: bool,
    pub commit_result: Option<CommitResult>,
    pub tags_created: Vec<TagResult>,
    pub changesets_deleted: Vec<String>,
    pub changesets_consumed: bool,
    pub consumed_cleared: bool,
    pub consumed_files_cleared: Vec<ChangesetFileState>,
    pub changelog_backups: Vec<ChangelogFileState>,
    pub changelogs_written: bool,
    pub version_tracking_writes: Vec<VersionTrackingWrite>,
}

/// The packages that leave pre-release with this release: a pre-release
/// version released as a normal version.
pub open spec fn leaving_prerelease(releases: Seq<PackageVersion>) -> Seq<Seq<char>>
    decreases releases.len(),
{
    if releases.len() == 0 {
        Seq::empty()
    } else {
        let prev = leaving_prerelease(releases.drop_last());
        let r = releases.last();
        if is_prerelease_spec(r.current_version@) && !is_prerelease_spec(r.new_version@) {
            prev.push(r.name@)
        } else {
            prev
        }
    }
}

/// The packages that graduate with this release: from `0.x` to `1.0` or
/// later.
pub open spec fn graduating(releases: Seq<PackageVersion>) -> Seq<Seq<char>>
    decreases releases.len(),
{
    if releases.len() == 0 {
        Seq::empty()
    } else {
        let prev = graduating(releases.drop_last());
        let r = releases.last();
        if r.current_version.major == 0 && r.new_version.major >= 1 {
            prev.push(r.name@)
        } else {
            prev
        }
    }
}

/// The update records `s` as the original and `s` without the packages
/// leaving pre-release as the new state.
pub open spec fn prerelease_update_for(u: Option<PrereleaseStateUpdate>, s: PrereleaseState, releases: Seq<PackageVersion>) -> bool {
    match u {
        Some(u) => u.new_state.wf() && u.new_state.tags() == tags_after_removals(s.tags(), leaving_prerelease(releases))
            && match u.original {
            Some(o) => o.tags() == s.tags(),
            None => false,
        },
        None => false,
    }
}

/// The update records `s` as the original and `s` without the graduating
/// packages as the new queue.
pub open spec fn graduation_update_for(u: Option<GraduationStateUpdate>, s: GraduationState, releases: Seq<PackageVersion>) -> bool {
    match u {
        Some(u) => u.new_state.wf() && u.new_state.members().to_set() == queue_after_removals(
            s.members().to_set(),
            graduating(releases),
        ) && match u.original {
            Some(o) => o.members() == s.members(),
            None => false,
        },
        None => false,
    }
}

/// Two step inputs record the same versions for the changesets a
/// graduation cleared, file by file.
pub open spec fn same_cleared_statuses(a: ReleaseSagaData, b: ReleaseSagaData) -> bool {
    &&& a.consumed_files_cleared@.len() == b.consumed_files_cleared@.len()
    &&& forall|i: int|
        0 <= i < a.consumed_files_cleared@.len() ==> (#[trigger] a.consumed_files_cleared@[i]).original_consumed_status
            == b.consumed_files_cleared@[i].original_consumed_status
}

/// Copies the cleared changeset states, keeping each recorded version.
fn clone_file_states(v: &Vec<ChangesetFileState>) -> (r: Vec<ChangesetFileState>)
    ensures
        r@.len() == v@.len(),
        forall|i: int| 0 <= i < v@.len() ==> (#[trigger] r@[i]).original_consumed_status == v@[i].original_consumed_status,
{
    let mut r: Vec<ChangesetFileState> = Vec::new();
    let mut i: usize = 0;
    while i < v.len()
        invariant
            i <= v.len(),
            r@.len() == i,
            forall|k: int| 0 <= k < i ==> (#[trigger] r@[k]).original_consumed_status == v@[k].original_consumed_status,
        decreases v.len() - i,
    {
        r.push(ChangesetFileState {
            path: v[i].path.clone(),
            original_consumed_status: crate::model::clone_opt_string(&v[i].original_consumed_status),
            backup: v[i].backup.clone(),
        });
        i = i + 1;
    }
    r
}

impl ReleaseSagaData {
    /// A copy of the data for compensating a step, with the same recorded
    /// versions of the changesets a graduation cleared.
    pub fn snapshot(&self) -> (r: Self)
        ensures
            same_cleared_statuses(r, *self),
    {
        let mut r = self.clone();
        r.consumed_files_cleared = clone_file_states(&self.consumed_files_cleared);
        r
    }

    /// The data a release starts with: nothing done yet.
    pub fn new(
        changeset_dir: String,
        root_manifest_path: String,
        planned_releases: Vec<PackageVersion>,
        package_paths: Vec<(String, String)>,
        changelog_updates: Vec<ChangelogUpdate>,
        changeset_files: Vec<String>,
    ) -> (r: Self)
        ensures
            r.changeset_dir == changeset_dir,
            r.root_manifest_path == root_manifest_path,
            r.planned_releases == planned_releases,
            r.package_paths == package_paths,
            r.changelog_updates == changelog_updates,
            r.changeset_files@.len() == changeset_files@.len(),
            forall|i: int|
                0 <= i < changeset_files@.len() ==> #[trigger] r.changeset_files@[i].path == changeset_files@[i]
                    && r.changeset_files@[i].original_consumed_status is None && r.changeset_files@[i].backup is None,
            r.inherited_packages@.len() == 0,
            r.prerelease_state_update is None,
            r.graduation_state_update is None,
            r.manifest_updates@.len() == 0,
            r.dependency_updates@.len() == 0,
            !r.workspace_version_removed,
            r.staged_files@.len() == 0,
            !r.files_were_staged,
            r.commit_result is None,
            r.tags_created@.len() == 0,
            r.changesets_deleted@.len() == 0,
            !r.changesets_consumed,
            !r.consumed_cleared,
            r.changelog_backups@.len() == 0,
            !r.changelogs_written,
            r.additional_package_manifests@.len() == 0,
            r.version_tracking_writes@.len() == 0,
    {
        let mut states: Vec<ChangesetFileState> = Vec::new();
        let mut i: usize = 0;
        while i < changeset_files.len()
            invariant
                i <= changeset_files@.len(),
                states@.len() == i,
                forall|k: int|
                    0 <= k < i ==> #[trigger] states@[k].path == changeset_files@[k] && states@[k].original_consumed_status is None
                        && states@[k].backup is None,
            decreases changeset_files.len() - i,
        {
            let ghost before = states@;
            states.push(ChangesetFileState { path: changeset_files[i].clone(), original_consumed_status: None, backup: None });
            proof {
                assert forall|k: int|
                    0 <= k < i + 1 implies #[trigger] states@[k].path == changeset_files@[k] && states@[k].original_consumed_status is None
                        && states@[k].backup is None by {
                    if k < i {
                        assert(states@[k] == before[k]);
                    }
                }
            }
            i = i + 1;
        }
        ReleaseSagaData {
            changeset_dir,
            root_manifest_path,
            inherited_packages: Vec::new(),
            planned_releases,
            package_paths,
            changelog_updates,
            classification: ReleaseClassification {
                is_prerelease_graduation: false,
                is_graduating: false,
                is_prerelease_release: false,
            },
            git_options: GitOptions { should_commit: false, should_create_tags: false, should_delete_changesets: false },
            prerelease_state_update: None,
            graduation_state_update: None,
            changeset_files: states,
            manifest_updates: Vec::new(),
            dependency_updates: Vec::new(),
            workspace_version_removed: false,
            original_workspace_version: None,
            staged_files: Vec::new(),
            files_were_staged: false,
            commit_result: None,
            tags_created: Vec::new(),
            changesets_deleted: Vec::new(),
            changesets_consumed: false,
            consumed_cleared: false,
            consumed_files_cleared: Vec::new(),
            changelog_backups: Vec::new(),
            changelogs_written: false,
            additional_package_manifests: Vec::new(),
            version_tracking_writes: Vec::new(),
        }
    }

    /// Sets the manifests of the additional packages.
    pub fn with_additional_packages(self, additional: Vec<(String, AdditionalManifestInfo)>) -> (r: Self)
        ensures
            r == (ReleaseSagaData { additional_package_manifests: additional, ..self }),
    {
        ReleaseSagaData { additional_package_manifests: additional, ..self }
    }

    /// Sets the versions to write into tracking manifests.
    pub fn with_version_tracking_writes(self, writes: Vec<VersionTrackingWrite>) -> (r: Self)
        ensures
            r == (ReleaseSagaData { version_tracking_writes: writes, ..self }),
    {
        ReleaseSagaData { version_tracking_writes: writes, ..self }
    }

    /// Sets the classification and git options.
    pub fn with_options(self, options: SagaReleaseOptions) -> (r: Self)
        ensures
            r == (ReleaseSagaData { classification: options.classification, git_options: options.git_options, ..self }),
    {
        ReleaseSagaData { classification: options.classification, git_options: options.git_options, ..self }
    }

    /// Sets the packages whose versions are inherited from the workspace.
    pub fn with_inherited_packages(self, inherited_packages: Vec<String>) -> (r: Self)
        ensures
            r == (ReleaseSagaData { inherited_packages, ..self }),
    {
        ReleaseSagaData { inherited_packages, ..self }
    }

    /// Records, if there is a pre-release state, the state after the
    /// release: the packages leaving pre-release are dropped from it.
    pub fn with_prerelease_state(self, current_state: Option<&PrereleaseState>) -> (r: Self)
        requires
            current_state matches Some(s) ==> s.wf(),
        ensures
            r.planned_releases == self.planned_releases,
            r.changeset_dir == self.changeset_dir,
            r.graduation_state_update == self.graduation_state_update,
            match current_state {
                Some(s) => prerelease_update_for(r.prerelease_state_update, *s, self.planned_releases@),
                None => r.prerelease_state_update == self.prerelease_state_update,
            },
    {
        match current_state {
            Some(state) => {
                let mut new_state = state.clone();
                let ghost start = state.tags();
                proof {
                    assert(new_state.tags() =~= start);
                    assert(self.planned_releases@.take(0) =~= Seq::<PackageVersion>::empty());
                }
                let mut i: usize = 0;
                while i < self.planned_releases.len()
                    invariant
                        i <= self.planned_releases.len(),
                        new_state.wf(),
                        new_state.tags() == tags_after_removals(start, leaving_prerelease(self.planned_releases@.take(i as int))),
                    decreases self.planned_releases.len() - i,
                {
                    let release = &self.planned_releases[i];
                    proof {
                        assert(self.planned_releases@.take(i + 1).drop_last() =~= self.planned_releases@.take(i as int));
                    }
                    if is_prerelease(&release.current_version) && !is_prerelease(&release.new_version) {
                        let ghost before = new_state.tags();
                        let _ = new_state.remove(release.name.as_str());
                        proof {
                            let names = leaving_prerelease(self.planned_releases@.take(i as int));
                            assert(leaving_prerelease(self.planned_releases@.take(i + 1)) == names.push(release.name@));
                            assert(names.push(release.name@).drop_last() =~= names);
                            assert(new_state.tags() =~= before.remove(release.name@));
                        }
                    }
                    i = i + 1;
                }
                proof {
                    assert(self.planned_releases@.take(self.planned_releases@.len() as int) =~= self.planned_releases@);
                }
                let original = state.clone();
                proof {
                    assert(original.tags() =~= state.tags());
                }
                let update = PrereleaseStateUpdate { original: Some(original), new_state };
                ReleaseSagaData { prerelease_state_update: Some(update), ..self }
            },
            None => self,
        }
    }

    /// Records, if there is a graduation queue, the queue after the
    /// release: the graduating packages are dropped from it.
    pub fn with_graduation_state(self, current_state: Option<&GraduationState>) -> (r: Self)
        requires
            current_state matches Some(s) ==> s.wf(),
        ensures
            r.planned_releases == self.planned_releases,
            r.changeset_dir == self.changeset_dir,
            r.prerelease_state_update == self.prerelease_state_update,
            match current_state {
                Some(s) => graduation_update_for(r.graduation_state_update, *s, self.planned_releases@),
                None => r.graduation_state_update == self.graduation_state_update,
            },
    {
        match current_state {
            Some(state) => {
                let mut new_state = state.clone();
                let ghost start = state.members().to_set();
                proof {
                    assert(self.planned_releases@.take(0) =~= Seq::<PackageVersion>::empty());
                }
                let mut i: usize = 0;
                while i < self.planned_releases.len()
                    invariant
                        i <= self.planned_releases.len(),
                        new_state.wf(),
                        new_state.members().to_set() == queue_after_removals(start, graduating(self.planned_releases@.take(i as int))),
                    decreases self.planned_releases.len() - i,
                {
                    let release = &self.planned_releases[i];
                    proof {
                        assert(self.planned_releases@.take(i + 1).drop_last() =~= self.planned_releases@.take(i as int));
                    }
                    if release.current_version.major == 0 && release.new_version.major >= 1 {
                        let ghost before = new_state.members();
                        let _ = new_state.remove(release.name.as_str());
                        proof {
                            let names = graduating(self.planned_releases@.take(i as int));
                            assert(graduating(self.planned_releases@.take(i + 1)) == names.push(release.name@));
                            assert(names.push(release.name@).drop_last() =~= names);
                            assert(new_state.members().to_set() =~= before.to_set().remove(release.name@));
                        }
                    }
                    i = i + 1;
                }
                proof {
                    assert(self.planned_releases@.take(self.planned_releases@.len() as int) =~= self.planned_releases@);
                }
                let update = GraduationStateUpdate { original: Some(state.clone()), new_state };
                ReleaseSagaData { graduation_state_update: Some(update), ..self }
            },
            None => self,
        }
    }

    /// Sets the changelog backups; changelogs count as written when there
    /// is a backup.
    pub fn with_changelog_backups(self, backups: Vec<ChangelogFileState>) -> (r: Self)
        ensures
            r == (ReleaseSagaData { changelogs_written: backups@.len() > 0, changelog_backups: backups, ..self }),
    {
        let written = backups.len() > 0;
        ReleaseSagaData { changelogs_written: written, changelog_backups: backups, ..self }
    }

    /// What the release did in git.
    pub fn into_git_result(self) -> (r: GitOperationResult)
        ensures
            r.commit == self.commit_result,
            r.tags_created == self.tags_created,
            r.changesets_deleted == self.changesets_deleted,
    {
        GitOperationResult::new(self.commit_result, self.tags_created, self.changesets_deleted)
    }
}

/// A step of a release: it does its work, and can undo it given the data
/// it started from.
pub trait SagaStep {
    type Context;

    fn name(&self) -> &'static str;

    fn execute(&self, ctx: &Self::Context, input: ReleaseSagaData) -> Result<ReleaseSagaData>;

    fn compensate(&self, ctx: &Self::Context, input: ReleaseSagaData) -> Result<()>;

    fn compensation_description(&self) -> String;
}

/// The directory recorded for a package: the first entry of that name.
pub open spec fn path_of(paths: Seq<(String, String)>, name: Seq<char>) -> Option<Seq<char>>
    decreases paths.len(),
{
    if paths.len() == 0 {
        None
    } else if paths[0].0@ == name {
        Some(paths[0].1@)
    } else {
        path_of(paths.drop_first(), name)
    }
}

/// No two entries have the same name.
pub open spec fn names_unique(paths: Seq<(String, String)>) -> bool {
    forall|i: int, j: int| 0 <= i < j < paths.len() ==> (#[trigger] paths[i]).0@ != (#[trigger] paths[j]).0@
}

proof fn lemma_path_of_unique(paths: Seq<(String, String)>, name: Seq<char>)
    requires
        names_unique(paths),
    ensures
        forall|i: int| 0 <= i < paths.len() && (#[trigger] paths[i]).0@ == name ==> path_of(paths, name) == Some(paths[i].1@),
        (forall|i: int| 0 <= i < paths.len() ==> (#[trigger] paths[i]).0@ != name) ==> path_of(paths, name) is None,
    decreases paths.len(),
{
    if paths.len() > 0 {
        let rest = paths.drop_first();
        assert forall|i: int, j: int| 0 <= i < j < rest.len() implies (#[trigger] rest[i]).0@ != (#[trigger] rest[j]).0@ by {
            assert(rest[i] == paths[i + 1] && rest[j] == paths[j + 1]);
        }
        lemma_path_of_unique(rest, name);
        assert forall|i: int| 0 <= i < paths.len() && (#[trigger] paths[i]).0@ == name implies path_of(paths, name) == Some(paths[i].1@) by {
            if i > 0 {
                assert(paths[0].0@ != paths[i].0@);
                assert(rest[i - 1] == paths[i]);
            }
        }
        if forall|i: int| 0 <= i < paths.len() ==> (#[trigger] paths[i]).0@ != name {
            assert forall|i: int| 0 <= i < rest.len() implies (#[trigger] rest[i]).0@ != name by {
                assert(rest[i] == paths[i + 1]);
            }
        }
    }
}

/// The directory of each package by name, as a lookup table filled in
/// package order records it: one entry per name, holding the directory of
/// the last package of that name.
pub fn package_path_entries(packages: &Vec<crate::model::PackageInfo>) -> (r: Vec<(String, String)>)
    ensures
        names_unique(r@),
        forall|n: Seq<char>| #[trigger] path_of(r@, n) == match crate::changelog_plan::package_by_name(packages@, n) {
            Some(p) => Some(p.path),
            None => None,
        },
{
    let mut r: Vec<(String, String)> = Vec::new();
    let mut k: usize = 0;
    while k < packages.len()
        invariant
            k <= packages.len(),
            names_unique(r@),
            forall|n: Seq<char>| #[trigger] path_of(r@, n) == match crate::changelog_plan::package_by_name(packages@.take(k as int), n) {
                Some(p) => Some(p.path),
                None => None,
            },
        decreases packages.len() - k,
    {
        let ghost old_r = r@;
        let name = packages[k].name.clone();
        let path = packages[k].path.clone();
        proof {
            assert(packages@.take(k + 1).drop_last() =~= packages@.take(k as int));
            assert(packages@.take(k + 1).last() == packages@[k as int]);
        }
        match find_path(&r, name.as_str()) {
            Some(i) => {
                r.set(i, (name, path));
                proof {
                    assert forall|a: int, b: int| 0 <= a < b < r@.len() implies (#[trigger] r@[a]).0@ != (#[trigger] r@[b]).0@ by {
                        assert(r@[a].0@ == old_r[a].0@ && r@[b].0@ == old_r[b].0@);
                    }
                    assert forall|n: Seq<char>| #[trigger] path_of(r@, n) == match crate::changelog_plan::package_by_name(packages@.take(k + 1), n) {
                        Some(p) => Some(p.path),
                        None => None,
                    } by {
                        lemma_path_of_unique(r@, n);
                        lemma_path_of_unique(old_r, n);
                        if n == packages@[k as int].name@ {
                            assert(r@[i as int].0@ == n);
                        } else if exists|j: int| 0 <= j < old_r.len() && old_r[j].0@ == n {
                            let j = choose|j: int| 0 <= j < old_r.len() && old_r[j].0@ == n;
                            assert(r@[j] == old_r[j]);
                        } else {
                            assert forall|j: int| 0 <= j < r@.len() implies (#[trigger] r@[j]).0@ != n by {
                                if j != i {
                                    assert(r@[j] == old_r[j]);
                                }
                            }
                        }
                    }
                }
            },
            None => {
                proof {
                    lemma_path_of_unique(old_r, name@);
                    assert forall|j: int| 0 <= j < old_r.len() implies (#[trigger] old_r[j]).0@ != name@ by {
                        if old_r[j].0@ == name@ {
                            assert(path_of(old_r, name@) == Some(old_r[j].1@));
                        }
                    }
                }
                r.push((name, path));
                proof {
                    assert forall|a: int, b: int| 0 <= a < b < r@.len() implies (#[trigger] r@[a]).0@ != (#[trigger] r@[b]).0@ by {
                        if b < old_r.len() {
                            assert(r@[a] == old_r[a] && r@[b] == old_r[b]);
                        } else {
                            assert(r@[a] == old_r[a]);
                        }
                    }
                    assert forall|n: Seq<char>| #[trigger] path_of(r@, n) == match crate::changelog_plan::package_by_name(packages@.take(k + 1), n) {
                        Some(p) => Some(p.path),
                        None => None,
                    } by {
                        lemma_path_of_unique(r@, n);
                        lemma_path_of_unique(old_r, n);
                        if n == packages@[k as int].name@ {
                            assert(r@[old_r.len() as int].0@ == n);
                        } else if exists|j: int| 0 <= j < old_r.len() && old_r[j].0@ == n {
                            let j = choose|j: int| 0 <= j < old_r.len() && old_r[j].0@ == n;
                            assert(r@[j] == old_r[j]);
                        } else {
                            assert forall|j: int| 0 <= j < r@.len() implies (#[trigger] r@[j]).0@ != n by {
                                if j < old_r.len() {
                                    assert(r@[j] == old_r[j]);
                                }
                            }
                        }
                    }
                }
            },
        }
        k = k + 1;
    }
    proof {
        assert(packages@.take(packages@.len() as int) =~= packages@);
    }
    r
}

/// The position of the first entry for `name`.
pub fn find_path(paths: &Vec<(String, String)>, name: &str) -> (r: Option<usize>)
    ensures
        match r {
            Some(i) => i < paths@.len() && paths@[i as int].0@ == name@ && path_of(paths@, name@) == Some(paths@[i as int].1@),
            None => path_of(paths@, name@) is None,
        },
{
    let mut i: usize = 0;
    proof {
        assert(paths@.skip(0) =~= paths@);
    }
    while i < paths.len()
        invariant
            i <= paths.len(),
            path_of(paths@, name@) == path_of(paths@.skip(i as int), name@),
        decreases paths.len() - i,
    {
        proof {
            assert(paths@.skip(i as int).drop_first() =~= paths@.skip(i + 1));
        }
        if crate::text::str_eq(paths[i].0.as_str(), name) {
            return Some(i);
        }
        i = i + 1;
    }
    proof {
        assert(paths@.skip(i as int).len() == 0);
    }
    None
}

/// A manifest update as (manifest, old version, new version, written).
pub open spec fn manifest_update_view(u: ManifestUpdate) -> (Seq<char>, VersionView, VersionView, bool) {
    (u.manifest_path@, u.old_version@, u.new_version@, u.written)
}

pub open spec fn manifest_update_views(s: Seq<ManifestUpdate>) -> Seq<(Seq<char>, VersionView, VersionView, bool)> {
    s.map_values(|u: ManifestUpdate| manifest_update_view(u))
}

/// The manifest of a package directory.
pub open spec fn manifest_in(dir: Seq<char>) -> Seq<char> {
    path_join_spec(dir, "Cargo.toml"@)
}

/// The manifest updates a release makes: one per planned release with a
/// known directory, in order.
pub open spec fn expected_manifest_updates(releases: Seq<PackageVersion>, paths: Seq<(String, String)>) -> Seq<
    (Seq<char>, VersionView, VersionView, bool),
>
    decreases releases.len(),
{
    if releases.len() == 0 {
        Seq::empty()
    } else {
        let prev = expected_manifest_updates(releases.drop_last(), paths);
        let r = releases.last();
        match path_of(paths, r.name@) {
            Some(dir) => prev.push((manifest_in(dir), r.current_version@, r.new_version@, true)),
            None => prev,
        }
    }
}

/// No planned release has a recorded package directory, so no manifest
/// is written.
pub open spec fn no_manifest_to_write(d: ReleaseSagaData) -> bool {
    forall|j: int|
        0 <= j < d.planned_releases@.len() ==> path_of(d.package_paths@, (#[trigger] d.planned_releases@[j]).name@) is None
}

/// Writes each planned version into the package's manifest and checks it.
pub struct WriteManifestVersionsStep<G, M, RW, S, C> {
    _marker: PhantomData<(G, M, RW, S, C)>,
}

impl<G, M, RW, S, C> WriteManifestVersionsStep<G, M, RW, S, C> {
    pub fn new() -> Self {
        WriteManifestVersionsStep { _marker: PhantomData }
    }
}

impl<
    G: GitProvider,
    M: ManifestWriter,
    RW: ChangesetReader + ChangesetWriter,
    S: ReleaseStateIO,
    C: ChangelogWriter,
> SagaStep for WriteManifestVersionsStep<G, M, RW, S, C> {
    type Context = ReleaseSagaContext<G, M, RW, S, C>;

    fn name(&self) -> (r: &'static str)
        ensures
            r@ == "write_manifest_versions"@,
    {
        "write_manifest_versions"
    }

    /// Records the manifests it wrote, with the versions before and after.
    #[verifier::loop_isolation(false)]
    fn execute(&self, ctx: &Self::Context, input: ReleaseSagaData) -> (r: Result<ReleaseSagaData>)
        ensures
            r matches Ok(out) ==> out == (ReleaseSagaData { manifest_updates: out.manifest_updates, ..input })
                && manifest_update_views(out.manifest_updates@) == expected_manifest_updates(
                input.planned_releases@,
                input.package_paths@,
            ),
            no_manifest_to_write(input) ==> r is Ok,
    {
        let mut input = input;
        let mut manifest_updates: Vec<ManifestUpdate> = Vec::new();
        let mut i: usize = 0;
        while i < input.planned_releases.len()
            invariant
                i <= input.planned_releases.len(),
                manifest_update_views(manifest_updates@) == expected_manifest_updates(
                    input.planned_releases@.take(i as int),
                    input.package_paths@,
                ),
            decreases input.planned_releases.len() - i,
        {
            let release = &input.planned_releases[i];
            proof {
                assert(input.planned_releases@.take(i + 1).drop_last() =~= input.planned_releases@.take(i as int));
            }
            match find_path(&input.package_paths, release.name.as_str()) {
                Some(k) => {
                    let manifest_path = path_join(input.package_paths[k].1.as_str(), "Cargo.toml");
                    ctx.manifest_writer().write_version(manifest_path.as_str(), &release.new_version)?;
                    ctx.manifest_writer().verify_version(manifest_path.as_str(), &release.new_version)?;
                    let ghost before = manifest_updates@;
                    manifest_updates.push(ManifestUpdate {
                        manifest_path,
                        old_version: release.current_version.clone(),
                        new_version: release.new_version.clone(),
                        written: true,
                    });
                    proof {
                        assert(manifest_update_views(manifest_updates@) =~= manifest_update_views(before).push(
                            (manifest_in(input.package_paths@[k as int].1@), release.current_version@, release.new_version@, true),
                        ));
                    }
                },
                None => {},
            }
            i = i + 1;
        }
        proof {
            assert(input.planned_releases@.take(input.planned_releases@.len() as int) =~= input.planned_releases@);
        }
        input.manifest_updates = manifest_updates;
        Ok(input)
    }

    /// Writes the former versions back.
    fn compensate(&self, ctx: &Self::Context, input: ReleaseSagaData) -> (r: Result<()>)
        ensures
            no_manifest_to_write(input) ==> r is Ok,
    {
        let mut i: usize = 0;
        while i < input.planned_releases.len()
            invariant
                i <= input.planned_releases.len(),
            decreases input.planned_releases.len() - i,
        {
            let release = &input.planned_releases[i];
            match find_path(&input.package_paths, release.name.as_str()) {
                Some(k) => {
                    let manifest_path = path_join(input.package_paths[k].1.as_str(), "Cargo.toml");
                    ctx.manifest_writer().write_version(manifest_path.as_str(), &release.current_version)?;
                },
                None => {},
            }
            i = i + 1;
        }
        Ok(())
    }

    fn compensation_description(&self) -> (r: String)
        ensures
            r@ == "restore original package versions in Cargo.toml files"@,
    {
        String::from_str("restore original package versions in Cargo.toml files")
    }
}

/// The manifests a release touches: each package's and the root one.
pub open spec fn manifests_of(paths: Seq<(String, String)>, root_manifest: Seq<char>) -> Seq<Seq<char>> {
    paths.map_values(|p: (String, String)| manifest_in(p.1@)).push(root_manifest)
}

/// The manifests of the package directories, then the root manifest.
fn manifest_paths(paths: &Vec<(String, String)>, root_manifest: &String) -> (r: Vec<String>)
    ensures
        views(r@) == manifests_of(paths@, root_manifest@),
{
    let mut r: Vec<String> = Vec::new();
    let mut i: usize = 0;
    while i < paths.len()
        invariant
            i <= paths.len(),
            views(r@) == paths@.take(i as int).map_values(|p: (String, String)| manifest_in(p.1@)),
        decreases paths.len() - i,
    {
        crate::text::push_string(&mut r, path_join(paths[i].1.as_str(), "Cargo.toml"));
        proof {
            assert(paths@.take(i + 1).map_values(|p: (String, String)| manifest_in(p.1@)) =~= paths@.take(i as int).map_values(
                |p: (String, String)| manifest_in(p.1@),
            ).push(manifest_in(paths@[i as int].1@)));
        }
        i = i + 1;
    }
    proof {
        assert(paths@.take(paths@.len() as int) =~= paths@);
    }
    crate::text::push_string(&mut r, root_manifest.clone());
    r
}

/// A dependency update that some planned release explains, in one of the
/// manifests.
pub open spec fn explained_update(d: DependencyUpdate, releases: Seq<PackageVersion>, manifests: Seq<Seq<char>>) -> bool {
    &&& manifests.contains(d.manifest_path@)
    &&& exists|k: int|
        0 <= k < releases.len() && #[trigger] releases[k].name@ == d.dependency_name@ && releases[k].current_version@
            == d.old_version@ && releases[k].new_version@ == d.new_version@
}

/// Updates, in every manifest of the project, the requirement on each released package.
pub struct UpdateDependencyVersionsStep<G, M, RW, S, C> {
    _marker: PhantomData<(G, M, RW, S, C)>,
}

impl<G, M, RW, S, C> UpdateDependencyVersionsStep<G, M, RW, S, C> {
    pub fn new() -> Self {
        UpdateDependencyVersionsStep { _marker: PhantomData }
    }
}

impl<
    G: GitProvider,
    M: ManifestWriter,
    RW: ChangesetReader + ChangesetWriter,
    S: ReleaseStateIO,
    C: ChangelogWriter,
> SagaStep for UpdateDependencyVersionsStep<G, M, RW, S, C> {
    type Context = ReleaseSagaContext<G, M, RW, S, C>;

    fn name(&self) -> (r: &'static str)
        ensures
            r@ == "update_dependency_versions"@,
    {
        "update_dependency_versions"
    }

    /// Records each requirement that a manifest had and that was updated.
    #[verifier::loop_isolation(false)]
    fn execute(&self, ctx: &Self::Context, input: ReleaseSagaData) -> (r: Result<ReleaseSagaData>)
        ensures
            r matches Ok(out) ==> out == (ReleaseSagaData { dependency_updates: out.dependency_updates, ..input })
                && forall|i: int|
                0 <= i < out.dependency_updates@.len() ==> explained_update(
                    #[trigger] out.dependency_updates@[i],
                    input.planned_releases@,
                    manifests_of(input.package_paths@, input.root_manifest_path@),
                ),
            input.planned_releases@.len() == 0 ==> (r matches Ok(out) && out.dependency_updates@.len() == 0),
    {
        let mut input = input;
        let manifests = manifest_paths(&input.package_paths, &input.root_manifest_path);
        let ghost ms = manifests_of(input.package_paths@, input.root_manifest_path@);
        let mut updates: Vec<DependencyUpdate> = Vec::new();
        let mut i: usize = 0;
        while i < input.planned_releases.len()
            invariant
                i <= input.planned_releases.len(),
                views(manifests@) == ms,
                forall|k: int| 0 <= k < updates@.len() ==> explained_update(#[trigger] updates@[k], input.planned_releases@, ms),
                updates@.len() > 0 ==> input.planned_releases@.len() > 0,
            decreases input.planned_releases.len() - i,
        {
            let release = &input.planned_releases[i];
            let mut j: usize = 0;
            while j < manifests.len()
                invariant
                    j <= manifests.len(),
                    i < input.planned_releases@.len(),
                    release == input.planned_releases@[i as int],
                    views(manifests@) == ms,
                    forall|k: int| 0 <= k < updates@.len() ==> explained_update(#[trigger] updates@[k], input.planned_releases@, ms),
                    updates@.len() > 0 ==> input.planned_releases@.len() > 0,
                decreases manifests.len() - j,
            {
                let updated = ctx.manifest_writer().update_dependency_version(
                    manifests[j].as_str(),
                    release.name.as_str(),
                    &release.new_version,
                )?;
                if updated {
                    let ghost before = updates@;
                    let update = DependencyUpdate {
                        manifest_path: manifests[j].clone(),
                        dependency_name: release.name.clone(),
                        old_version: release.current_version.clone(),
                        new_version: release.new_version.clone(),
                    };
                    proof {
                        assert(views(manifests@)[j as int] == update.manifest_path@);
                        assert(ms.contains(update.manifest_path@));
                        assert(input.planned_releases@[i as int].name@ == update.dependency_name@);
                    }
                    updates.push(update);
                    proof {
                        assert forall|k: int| 0 <= k < updates@.len() implies explained_update(
                            #[trigger] updates@[k],
                            input.planned_releases@,
                            ms,
                        ) by {
                            if k < before.len() {
                                assert(updates@[k] == before[k]);
                            }
                        }
                    }
                }
                j = j + 1;
            }
            i = i + 1;
        }
        input.dependency_updates = updates;
        Ok(input)
    }

    /// Sets each requirement back to the former version.
    fn compensate(&self, ctx: &Self::Context, input: ReleaseSagaData) -> (r: Result<()>)
        ensures
            input.planned_releases@.len() == 0 ==> r is Ok,
    {
        let manifests = manifest_paths(&input.package_paths, &input.root_manifest_path);
        let mut i: usize = 0;
        while i < input.planned_releases.len()
            invariant
                i <= input.planned_releases.len(),
            decreases input.planned_releases.len() - i,
        {
            let release = &input.planned_releases[i];
            let mut j: usize = 0;
            while j < manifests.len()
                invariant
                    j <= manifests.len(),
                    i < input.planned_releases@.len(),
                decreases manifests.len() - j,
            {
                let _ = ctx.manifest_writer().update_dependency_version(
                    manifests[j].as_str(),
                    release.name.as_str(),
                    &release.current_version,
                )?;
                j = j + 1;
            }
            i = i + 1;
        }
        Ok(())
    }

    fn compensation_description(&self) -> (r: String)
        ensures
            r@ == "restore original dependency versions in Cargo.toml files"@,
    {
        String::from_str("restore original dependency versions in Cargo.toml files")
    }
}

/// Removes the workspace version when packages inherit it, keeping it for compensation.
pub struct RemoveWorkspaceVersionStep<G, M, RW, S, C> {
    _marker: PhantomData<(G, M, RW, S, C)>,
}

impl<G, M, RW, S, C> RemoveWorkspaceVersionStep<G, M, RW, S, C> {
    pub fn new() -> Self {
        RemoveWorkspaceVersionStep { _marker: PhantomData }
    }
}

impl<
    G: GitProvider,
    M: ManifestWriter,
    RW: ChangesetReader + ChangesetWriter,
    S: ReleaseStateIO,
    C: ChangelogWriter,
> SagaStep for RemoveWorkspaceVersionStep<G, M, RW, S, C> {
    type Context = ReleaseSagaContext<G, M, RW, S, C>;

    fn name(&self) -> (r: &'static str)
        ensures
            r@ == "remove_workspace_version"@,
    {
        "remove_workspace_version"
    }

    /// Acts only when some package inherits the workspace version.
    fn execute(&self, ctx: &Self::Context, input: ReleaseSagaData) -> (r: Result<ReleaseSagaData>)
        ensures
            r matches Ok(out) ==> if input.inherited_packages@.len() > 0 {
                out == (ReleaseSagaData {
                    original_workspace_version: out.original_workspace_version,
                    workspace_version_removed: true,
                    ..input
                })
            } else {
                out == input
            },
            input.inherited_packages@.len() == 0 ==> r is Ok,
    {
        let mut input = input;
        if input.inherited_packages.len() > 0 {
            input.original_workspace_version = ctx.manifest_writer().read_workspace_version(input.root_manifest_path.as_str())?;
            ctx.manifest_writer().remove_workspace_version(input.root_manifest_path.as_str())?;
            input.workspace_version_removed = true;
        }
        Ok(input)
    }

    /// Writes the former workspace version back, or the first release's
    /// former version when none was recorded.
    fn compensate(&self, ctx: &Self::Context, input: ReleaseSagaData) -> (r: Result<()>)
        ensures
            input.inherited_packages@.len() == 0 ==> r is Ok,
            input.original_workspace_version is None && input.planned_releases@.len() == 0 ==> r is Ok,
    {
        if input.inherited_packages.len() > 0 {
            match &input.original_workspace_version {
                Some(version) => {
                    ctx.manifest_writer().write_workspace_version(input.root_manifest_path.as_str(), version)?;
                },
                None => {
                    if input.planned_releases.len() > 0 {
                        ctx.manifest_writer().write_workspace_version(
                            input.root_manifest_path.as_str(),
                            &input.planned_releases[0].current_version,
                        )?;
                    }
                },
            }
        }
        Ok(())
    }

    fn compensation_description(&self) -> (r: String)
        ensures
            r@ == "restore workspace package version"@,
    {
        String::from_str("restore workspace package version")
    }
}

/// The paths of the changeset files.
pub open spec fn file_paths(files: Seq<ChangesetFileState>) -> Seq<Seq<char>> {
    files.map_values(|f: ChangesetFileState| f.path@)
}

/// The paths of the changeset files, cloned.
fn changeset_paths(files: &Vec<ChangesetFileState>) -> (r: Vec<String>)
    ensures
        views(r@) == file_paths(files@),
{
    let mut r: Vec<String> = Vec::new();
    let mut i: usize = 0;
    while i < files.len()
        invariant
            i <= files.len(),
            views(r@) == file_paths(files@.take(i as int)),
        decreases files.len() - i,
    {
        crate::text::push_string(&mut r, files[i].path.clone());
        proof {
            assert(file_paths(files@.take(i + 1)) =~= file_paths(files@.take(i as int)).push(files@[i as int].path@));
        }
        i = i + 1;
    }
    proof {
        assert(files@.take(files@.len() as int) =~= files@);
    }
    r
}

/// Some changeset file of a pre-release was not consumed before it.
pub open spec fn has_unconsumed_file(d: ReleaseSagaData) -> bool {
    d.classification.is_prerelease_release && exists|i: int|
        0 <= i < d.changeset_files@.len() && (#[trigger] d.changeset_files@[i]).original_consumed_status is None
}

/// Marks the changesets of a pre-release as consumed for its version.
pub struct MarkChangesetsConsumedStep<G, M, RW, S, C> {
    _marker: PhantomData<(G, M, RW, S, C)>,
}

impl<G, M, RW, S, C> MarkChangesetsConsumedStep<G, M, RW, S, C> {
    pub fn new() -> Self {
        MarkChangesetsConsumedStep { _marker: PhantomData }
    }
}

impl<
    G: GitProvider,
    M: ManifestWriter,
    RW: ChangesetReader + ChangesetWriter,
    S: ReleaseStateIO,
    C: ChangelogWriter,
> SagaStep for MarkChangesetsConsumedStep<G, M, RW, S, C> {
    type Context = ReleaseSagaContext<G, M, RW, S, C>;

    fn name(&self) -> (r: &'static str)
        ensures
            r@ == "mark_changesets_consumed"@,
    {
        "mark_changesets_consumed"
    }

    /// Acts only for a pre-release with changesets; the version is the
    /// first planned release's.
    fn execute(&self, ctx: &Self::Context, input: ReleaseSagaData) -> (r: Result<ReleaseSagaData>)
        ensures
            r matches Ok(out) ==> out == (ReleaseSagaData {
                changesets_consumed: input.changesets_consumed || (input.classification.is_prerelease_release
                    && input.changeset_files@.len() > 0 && input.planned_releases@.len() > 0),
                ..input
            }),
            !(input.classification.is_prerelease_release && input.changeset_files@.len() > 0
                && input.planned_releases@.len() > 0) ==> r is Ok,
    {
        let mut input = input;
        if input.classification.is_prerelease_release && input.changeset_files.len() > 0 && input.planned_releases.len() > 0 {
            let paths = changeset_paths(&input.changeset_files);
            ctx.changeset_rw().mark_consumed_for_prerelease(
                input.changeset_dir.as_str(),
                paths.as_slice(),
                &input.planned_releases[0].new_version,
            )?;
            input.changesets_consumed = true;
        }
        Ok(input)
    }

    /// Clears the mark of the changesets that were not consumed before.
    fn compensate(&self, ctx: &Self::Context, input: ReleaseSagaData) -> (r: Result<()>)
        ensures
            !input.classification.is_prerelease_release ==> r is Ok,
            !has_unconsumed_file(input) ==> r is Ok,
    {
        if input.classification.is_prerelease_release && input.changeset_files.len() > 0 {
            let mut to_clear: Vec<String> = Vec::new();
            let mut i: usize = 0;
            while i < input.changeset_files.len()
                invariant
                    i <= input.changeset_files.len(),
                    to_clear@.len() > 0 ==> exists|m: int|
                        0 <= m < i && (#[trigger] input.changeset_files@[m]).original_consumed_status is None,
                decreases input.changeset_files.len() - i,
            {
                if input.changeset_files[i].original_consumed_status.is_none() {
                    to_clear.push(input.changeset_files[i].path.clone());
                }
                i = i + 1;
            }
            if to_clear.len() > 0 {
                ctx.changeset_rw().clear_consumed_for_prerelease(input.changeset_dir.as_str(), to_clear.as_slice())?;
            }
        }
        Ok(())
    }

    fn compensation_description(&self) -> (r: String)
        ensures
            r@ == "restore original changeset consumed status"@,
    {
        String::from_str("restore original changeset consumed status")
    }
}

/// The `m`-th cleared changeset is the first with a recorded version, and
/// that version does not parse.
pub open spec fn first_status_unparsable(d: ReleaseSagaData, m: int) -> bool {
    &&& 0 <= m < d.consumed_files_cleared@.len()
    &&& d.consumed_files_cleared@[m].original_consumed_status matches Some(v) && crate::version::semver_parse(v@) is None
    &&& forall|j: int| 0 <= j < m ==> (#[trigger] d.consumed_files_cleared@[j]).original_consumed_status is None
}

/// Clears the consumed mark of earlier pre-release changesets when a package graduates.
pub struct ClearChangesetsConsumedStep<G, M, RW, S, C> {
    _marker: PhantomData<(G, M, RW, S, C)>,
}

impl<G, M, RW, S, C> ClearChangesetsConsumedStep<G, M, RW, S, C> {
    pub fn new() -> Self {
        ClearChangesetsConsumedStep { _marker: PhantomData }
    }
}

impl<
    G: GitProvider,
    M: ManifestWriter,
    RW: ChangesetReader + ChangesetWriter,
    S: ReleaseStateIO,
    C: ChangelogWriter,
> SagaStep for ClearChangesetsConsumedStep<G, M, RW, S, C> {
    type Context = ReleaseSagaContext<G, M, RW, S, C>;

    fn name(&self) -> (r: &'static str)
        ensures
            r@ == "clear_changesets_consumed"@,
    {
        "clear_changesets_consumed"
    }

    /// Acts only when graduating; keeps each consumed changeset it could
    /// read, with its mark, for compensation.
    fn execute(&self, ctx: &Self::Context, input: ReleaseSagaData) -> (r: Result<ReleaseSagaData>)
        ensures
            r matches Ok(out) ==> if input.classification.is_graduating {
                out == (ReleaseSagaData {
                    consumed_cleared: out.consumed_cleared,
                    consumed_files_cleared: out.consumed_files_cleared,
                    ..input
                })
            } else {
                out == input
            },
            !input.classification.is_graduating ==> r is Ok,
    {
        let mut input = input;
        if input.classification.is_graduating {
            let consumed = ctx.changeset_rw().list_consumed_changesets(input.changeset_dir.as_str())?;
            if consumed.len() > 0 {
                let mut states: Vec<ChangesetFileState> = Vec::new();
                let mut i: usize = 0;
                while i < consumed.len()
                    invariant
                        i <= consumed.len(),
                    decreases consumed.len() - i,
                {
                    match ctx.changeset_rw().read_changeset(consumed[i].as_str()) {
                        Ok(changeset) => {
                            let status = crate::model::clone_opt_string(&changeset.consumed_for_prerelease);
                            states.push(ChangesetFileState {
                                path: consumed[i].clone(),
                                original_consumed_status: status,
                                backup: Some(changeset),
                            });
                        },
                        Err(_) => {},
                    }
                    i = i + 1;
                }
                ctx.changeset_rw().clear_consumed_for_prerelease(input.changeset_dir.as_str(), consumed.as_slice())?;
                input.consumed_cleared = true;
                input.consumed_files_cleared = states;
            }
        }
        Ok(input)
    }

    /// Marks each cleared changeset as consumed for its former version
    /// again; a former version that does not parse is refused.
    fn compensate(&self, ctx: &Self::Context, input: ReleaseSagaData) -> (r: Result<()>)
        ensures
            input.consumed_files_cleared@.len() == 0 ==> r is Ok,
            (forall|i: int|
                0 <= i < input.consumed_files_cleared@.len() ==> (#[trigger] input.consumed_files_cleared@[i]).original_consumed_status
                    is None) ==> r is Ok,
            forall|m: int|
                #[trigger] first_status_unparsable(input, m) ==> (r matches Err(OperationError::VersionParse { version, .. })
                    && input.consumed_files_cleared@[m].original_consumed_status == Some(version)),
    {
        let mut i: usize = 0;
        while i < input.consumed_files_cleared.len()
            invariant
                i <= input.consumed_files_cleared.len(),
                forall|m: int| #[trigger] first_status_unparsable(input, m) ==> i <= m,
            decreases input.consumed_files_cleared.len() - i,
        {
            let state = &input.consumed_files_cleared[i];
            proof {
                assert forall|m: int| #[trigger] first_status_unparsable(input, m) && m != i implies i + 1 <= m by {
                    if state.original_consumed_status is Some {
                        assert(input.consumed_files_cleared@[i as int].original_consumed_status is Some);
                    }
                }
            }
            match &state.original_consumed_status {
                Some(original_version) => {
                    let version = match Version::parse(original_version.as_str()) {
                        Ok(v) => v,
                        Err(_) => {
                            return Err(OperationError::VersionParse {
                                version: original_version.clone(),
                                context: String::from_str("compensation restore consumed status"),
                            });
                        },
                    };
                    let paths = vec![state.path.clone()];
                    ctx.changeset_rw().mark_consumed_for_prerelease(input.changeset_dir.as_str(), paths.as_slice(), &version)?;
                },
                None => {},
            }
            i = i + 1;
        }
        Ok(())
    }

    fn compensation_description(&self) -> (r: String)
        ensures
            r@ == "restore consumed changeset status"@,
    {
        String::from_str("restore consumed changeset status")
    }
}

/// Whether a release deletes its changesets: unless kept, and not for a
/// pre-release or a graduation from pre-release.
pub open spec fn deletes_changesets(d: ReleaseSagaData) -> bool {
    d.git_options.should_delete_changesets && !d.classification.is_prerelease_release
        && !d.classification.is_prerelease_graduation && d.changeset_files@.len() > 0
}

/// Deletes the consumed changeset files through git, keeping their contents for compensation.
pub struct DeleteChangesetFilesStep<G, M, RW, S, C> {
    _marker: PhantomData<(G, M, RW, S, C)>,
}

impl<G, M, RW, S, C> DeleteChangesetFilesStep<G, M, RW, S, C> {
    pub fn new() -> Self {
        DeleteChangesetFilesStep { _marker: PhantomData }
    }
}

impl<
    G: GitProvider,
    M: ManifestWriter,
    RW: ChangesetReader + ChangesetWriter,
    S: ReleaseStateIO,
    C: ChangelogWriter,
> SagaStep for DeleteChangesetFilesStep<G, M, RW, S, C> {
    type Context = ReleaseSagaContext<G, M, RW, S, C>;

    fn name(&self) -> (r: &'static str)
        ensures
            r@ == "delete_changeset_files"@,
    {
        "delete_changeset_files"
    }

    /// Records the deleted files; each file's contents are read first and
    /// kept if they could be read.
    fn execute(&self, ctx: &Self::Context, input: ReleaseSagaData) -> (r: Result<ReleaseSagaData>)
        ensures
            r matches Ok(out) ==> if deletes_changesets(input) {
                out == (ReleaseSagaData {
                    changeset_files: out.changeset_files,
                    changesets_deleted: out.changesets_deleted,
                    ..input
                }) && views(out.changesets_deleted@) == file_paths(input.changeset_files@) && file_paths(out.changeset_files@)
                    == file_paths(input.changeset_files@)
            } else {
                out == input
            },
            !deletes_changesets(input) ==> r is Ok,
    {
        if !(input.git_options.should_delete_changesets && !input.classification.is_prerelease_release
            && !input.classification.is_prerelease_graduation && input.changeset_files.len() > 0) {
            return Ok(input);
        }
        let mut input = input;
        let mut states: Vec<ChangesetFileState> = Vec::new();
        let mut i: usize = 0;
        while i < input.changeset_files.len()
            invariant
                i <= input.changeset_files.len(),
                file_paths(states@) == file_paths(input.changeset_files@.take(i as int)),
            decreases input.changeset_files.len() - i,
        {
            let old_state = &input.changeset_files[i];
            let backup = match ctx.changeset_rw().read_changeset(old_state.path.as_str()) {
                Ok(c) => Some(c),
                Err(_) => None,
            };
            states.push(ChangesetFileState {
                path: old_state.path.clone(),
                original_consumed_status: crate::model::clone_opt_string(&old_state.original_consumed_status),
                backup,
            });
            proof {
                assert(file_paths(input.changeset_files@.take(i + 1)) =~= file_paths(input.changeset_files@.take(i as int)).push(
                    input.changeset_files@[i as int].path@,
                ));
                assert(file_paths(states@) =~= file_paths(states@.drop_last()).push(states@.last().path@));
            }
            i = i + 1;
        }
        proof {
            assert(input.changeset_files@.take(input.changeset_files@.len() as int) =~= input.changeset_files@);
        }
        let paths = changeset_paths(&input.changeset_files);
        ctx.git_provider().delete_files(ctx.project_root(), paths.as_slice())?;
        input.changeset_files = states;
        input.changesets_deleted = paths;
        Ok(input)
    }

    /// Writes back each changeset whose contents were kept.
    fn compensate(&self, ctx: &Self::Context, input: ReleaseSagaData) -> (r: Result<()>)
        ensures
            (forall|i: int| 0 <= i < input.changeset_files@.len() ==> (#[trigger] input.changeset_files@[i]).backup is None)
                ==> r is Ok,
    {
        let mut i: usize = 0;
        while i < input.changeset_files.len()
            invariant
                i <= input.changeset_files.len(),
            decreases input.changeset_files.len() - i,
        {
            let state = &input.changeset_files[i];
            match &state.backup {
                Some(changeset) => {
                    ctx.changeset_rw().restore_changeset(state.path.as_str(), changeset)?;
                },
                None => {},
            }
            i = i + 1;
        }
        Ok(())
    }

    fn compensation_description(&self) -> (r: String)
        ensures
            r@ == "restore deleted changeset files"@,
    {
        String::from_str("restore deleted changeset files")
    }
}

/// The files a release stages: written manifests, the root manifest if its
/// version was removed, written changelogs, manifests with updated
/// requirements, and deleted changesets.
pub open spec fn stage_candidates(d: ReleaseSagaData) -> Seq<Seq<char>> {
    d.manifest_updates@.map_values(|u: ManifestUpdate| u.manifest_path@) + (if d.workspace_version_removed {
        seq![d.root_manifest_path@]
    } else {
        Seq::empty()
    }) + d.changelog_updates@.map_values(|u: ChangelogUpdate| u.path@) + d.dependency_updates@.map_values(
        |u: DependencyUpdate| u.manifest_path@,
    ) + views(d.changesets_deleted@)
}

/// Adds `x` to the sorted set of collected paths.
fn collect_path(files: &mut Vec<String>, x: String, ghost_all: Ghost<Seq<Seq<char>>>)
    requires
        crate::text::strictly_sorted(views(old(files)@)),
        forall|f: Seq<char>| views(old(files)@).contains(f) <==> ghost_all@.contains(f),
    ensures
        crate::text::strictly_sorted(views(final(files)@)),
        forall|f: Seq<char>| views(final(files)@).contains(f) <==> ghost_all@.push(x@).contains(f),
{
    crate::text::insert_sorted(files, x);
    proof {
        crate::text::lemma_contains_push(ghost_all@, x@);
    }
}

/// Stages every file the release changed.
pub struct StageFilesStep<G, M, RW, S, C> {
    _marker: PhantomData<(G, M, RW, S, C)>,
}

impl<G, M, RW, S, C> StageFilesStep<G, M, RW, S, C> {
    pub fn new() -> Self {
        StageFilesStep { _marker: PhantomData }
    }
}

impl<
    G: GitProvider,
    M: ManifestWriter,
    RW: ChangesetReader + ChangesetWriter,
    S: ReleaseStateIO,
    C: ChangelogWriter,
> SagaStep for StageFilesStep<G, M, RW, S, C> {
    type Context = ReleaseSagaContext<G, M, RW, S, C>;

    fn name(&self) -> (r: &'static str)
        ensures
            r@ == "stage_files"@,
    {
        "stage_files"
    }

    /// When the release commits, stages the changed files, each once and in
    /// order, and records them.
    fn execute(&self, ctx: &Self::Context, input: ReleaseSagaData) -> (r: Result<ReleaseSagaData>)
        ensures
            r matches Ok(out) ==> if input.git_options.should_commit && stage_candidates(input).len() > 0 {
                out == (ReleaseSagaData { staged_files: out.staged_files, files_were_staged: true, ..input })
                    && crate::text::strictly_sorted(views(out.staged_files@)) && forall|f: Seq<char>|
                    views(out.staged_files@).contains(f) <==> stage_candidates(input).contains(f)
            } else {
                out == input
            },
            !(input.git_options.should_commit && stage_candidates(input).len() > 0) ==> r is Ok,
    {
        if !input.git_options.should_commit {
            return Ok(input);
        }
        let mut input = input;
        let mut files: Vec<String> = Vec::new();
        let ghost mut all: Seq<Seq<char>> = Seq::empty();
        let mut i: usize = 0;
        while i < input.manifest_updates.len()
            invariant
                i <= input.manifest_updates.len(),
                crate::text::strictly_sorted(views(files@)),
                all == input.manifest_updates@.take(i as int).map_values(|u: ManifestUpdate| u.manifest_path@),
                forall|f: Seq<char>| views(files@).contains(f) <==> all.contains(f),
            decreases input.manifest_updates.len() - i,
        {
            collect_path(&mut files, input.manifest_updates[i].manifest_path.clone(), Ghost(all));
            proof {
                all = all.push(input.manifest_updates@[i as int].manifest_path@);
                assert(all =~= input.manifest_updates@.take(i + 1).map_values(|u: ManifestUpdate| u.manifest_path@));
            }
            i = i + 1;
        }
        proof {
            assert(input.manifest_updates@.take(input.manifest_updates@.len() as int) =~= input.manifest_updates@);
        }
        if input.workspace_version_removed {
            collect_path(&mut files, input.root_manifest_path.clone(), Ghost(all));
            proof {
                all = all.push(input.root_manifest_path@);
            }
        }
        let ghost base = all;
        let mut i: usize = 0;
        while i < input.changelog_updates.len()
            invariant
                i <= input.changelog_updates.len(),
                crate::text::strictly_sorted(views(files@)),
                all == base + input.changelog_updates@.take(i as int).map_values(|u: ChangelogUpdate| u.path@),
                forall|f: Seq<char>| views(files@).contains(f) <==> all.contains(f),
            decreases input.changelog_updates.len() - i,
        {
            collect_path(&mut files, input.changelog_updates[i].path.clone(), Ghost(all));
            proof {
                all = all.push(input.changelog_updates@[i as int].path@);
                assert(all =~= base + input.changelog_updates@.take(i + 1).map_values(|u: ChangelogUpdate| u.path@));
            }
            i = i + 1;
        }
        proof {
            assert(input.changelog_updates@.take(input.changelog_updates@.len() as int) =~= input.changelog_updates@);
        }
        let ghost base = all;
        let mut i: usize = 0;
        while i < input.dependency_updates.len()
            invariant
                i <= input.dependency_updates.len(),
                crate::text::strictly_sorted(views(files@)),
                all == base + input.dependency_updates@.take(i as int).map_values(|u: DependencyUpdate| u.manifest_path@),
                forall|f: Seq<char>| views(files@).contains(f) <==> all.contains(f),
            decreases input.dependency_updates.len() - i,
        {
            collect_path(&mut files, input.dependency_updates[i].manifest_path.clone(), Ghost(all));
            proof {
                all = all.push(input.dependency_updates@[i as int].manifest_path@);
                assert(all =~= base + input.dependency_updates@.take(i + 1).map_values(|u: DependencyUpdate| u.manifest_path@));
            }
            i = i + 1;
        }
        proof {
            assert(input.dependency_updates@.take(input.dependency_updates@.len() as int) =~= input.dependency_updates@);
        }
        let ghost base = all;
        let mut i: usize = 0;
        while i < input.changesets_deleted.len()
            invariant
                i <= input.changesets_deleted.len(),
                crate::text::strictly_sorted(views(files@)),
                all == base + views(input.changesets_deleted@).take(i as int),
                forall|f: Seq<char>| views(files@).contains(f) <==> all.contains(f),
            decreases input.changesets_deleted.len() - i,
        {
            collect_path(&mut files, input.changesets_deleted[i].clone(), Ghost(all));
            proof {
                all = all.push(input.changesets_deleted@[i as int]@);
                assert(all =~= base + views(input.changesets_deleted@).take(i + 1));
            }
            i = i + 1;
        }
        proof {
            assert(views(input.changesets_deleted@).take(input.changesets_deleted@.len() as int) =~= views(input.changesets_deleted@));
            assert(all =~= stage_candidates(input));
            if all.len() > 0 {
                assert(all.contains(all[0]));
                assert(views(files@).contains(all[0]));
            }
            if files@.len() > 0 {
                assert(views(files@)[0] == files@[0]@);
                assert(views(files@).contains(views(files@)[0]));
                assert(all.contains(views(files@)[0]));
            }
        }
        if files.len() > 0 {
            ctx.git_provider().stage_files(ctx.project_root(), files.as_slice())?;
            input.staged_files = files;
            input.files_were_staged = true;
        }
        Ok(input)
    }

    /// Nothing to undo: other compensations restore the files' contents.
    fn compensate(&self, ctx: &Self::Context, input: ReleaseSagaData) -> (r: Result<()>)
        ensures
            r is Ok,
    {
        Ok(())
    }

    fn compensation_description(&self) -> (r: String)
        ensures
            r@ == "no action needed (file contents restored by other compensations)"@,
    {
        String::from_str("no action needed (file contents restored by other compensations)")
    }
}

/// `name@vX.Y.Z`: a package and its new version.
pub open spec fn release_label(r: PackageVersion) -> Seq<char> {
    r.name@ + "@v"@ + crate::version::version_text(r.new_version@)
}

/// `- name X.Y.Z -> X'.Y'.Z'`: a package's version change.
pub open spec fn change_line(r: PackageVersion) -> Seq<char> {
    "- "@ + r.name@ + " "@ + crate::version::version_text(r.current_version@) + " -> "@ + crate::version::version_text(
        r.new_version@,
    )
}

/// The release commit message: the title template with `{new-version}`
/// replaced by the released packages' labels, joined by `, `; with the
/// body, a blank line and one change line per package follow.
pub open spec fn commit_message_spec(template: Seq<char>, include_body: bool, releases: Seq<PackageVersion>) -> Seq<char> {
    let title = crate::text::replace_spec(
        template,
        "{new-version}"@,
        crate::text::join_seqs(releases.map_values(|r: PackageVersion| release_label(r)), ", "@),
    );
    if include_body {
        title + "\n\n"@ + crate::text::join_seqs(releases.map_values(|r: PackageVersion| change_line(r)), "\n"@)
    } else {
        title
    }
}

/// Creates the release commit.
pub struct CreateCommitStep<G, M, RW, S, C> {
    commit_title_template: String,
    include_changes_in_body: bool,
    _marker: PhantomData<(G, M, RW, S, C)>,
}

impl<G, M, RW, S, C> CreateCommitStep<G, M, RW, S, C> {
    pub closed spec fn template(&self) -> Seq<char> {
        self.commit_title_template@
    }

    pub closed spec fn includes_body(&self) -> bool {
        self.include_changes_in_body
    }

    pub fn new(commit_title_template: String, include_changes_in_body: bool) -> (r: Self)
        ensures
            r.template() == commit_title_template@,
            r.includes_body() == include_changes_in_body,
    {
        CreateCommitStep { commit_title_template, include_changes_in_body, _marker: PhantomData }
    }

    /// The commit message for the planned releases.
    pub fn build_commit_message(&self, planned_releases: &Vec<PackageVersion>) -> (r: String)
        ensures
            r@ == commit_message_spec(self.template(), self.includes_body(), planned_releases@),
    {
        let mut labels: Vec<String> = Vec::new();
        let mut lines: Vec<String> = Vec::new();
        let mut i: usize = 0;
        while i < planned_releases.len()
            invariant
                i <= planned_releases.len(),
                views(labels@) == planned_releases@.take(i as int).map_values(|r: PackageVersion| release_label(r)),
                views(lines@) == planned_releases@.take(i as int).map_values(|r: PackageVersion| change_line(r)),
            decreases planned_releases.len() - i,
        {
            let r = &planned_releases[i];
            let mut label = r.name.clone();
            label.append("@v");
            label.append(r.new_version.to_string().as_str());
            let mut line = String::from_str("- ");
            line.append(r.name.as_str());
            line.append(" ");
            line.append(r.current_version.to_string().as_str());
            line.append(" -> ");
            line.append(r.new_version.to_string().as_str());
            crate::text::push_string(&mut labels, label);
            crate::text::push_string(&mut lines, line);
            proof {
                assert(planned_releases@.take(i + 1).map_values(|r: PackageVersion| release_label(r)) =~= planned_releases@.take(
                    i as int,
                ).map_values(|r: PackageVersion| release_label(r)).push(release_label(planned_releases@[i as int])));
                assert(planned_releases@.take(i + 1).map_values(|r: PackageVersion| change_line(r)) =~= planned_releases@.take(
                    i as int,
                ).map_values(|r: PackageVersion| change_line(r)).push(change_line(planned_releases@[i as int])));
            }
            i = i + 1;
        }
        proof {
            assert(planned_releases@.take(planned_releases@.len() as int) =~= planned_releases@);
            reveal_strlit("{new-version}");
        }
        let new_version = crate::text::join_strings(&labels, ", ");
        let mut title = crate::text::replace_all(self.commit_title_template.as_str(), "{new-version}", new_version.as_str());
        if !self.include_changes_in_body {
            return title;
        }
        let body = crate::text::join_strings(&lines, "\n");
        title.append("\n\n");
        title.append(body.as_str());
        title
    }
}

impl<
    G: GitProvider,
    M: ManifestWriter,
    RW: ChangesetReader + ChangesetWriter,
    S: ReleaseStateIO,
    C: ChangelogWriter,
> SagaStep for CreateCommitStep<G, M, RW, S, C> {
    type Context = ReleaseSagaContext<G, M, RW, S, C>;

    fn name(&self) -> (r: &'static str)
        ensures
            r@ == "create_commit"@,
    {
        "create_commit"
    }

    /// Commits when the release commits and files were staged; records the
    /// commit.
    fn execute(&self, ctx: &Self::Context, input: ReleaseSagaData) -> (r: Result<ReleaseSagaData>)
        ensures
            r matches Ok(out) ==> if input.git_options.should_commit && input.files_were_staged {
                out == (ReleaseSagaData { commit_result: out.commit_result, ..input }) && out.commit_result is Some
            } else {
                out == input
            },
            !(input.git_options.should_commit && input.files_were_staged) ==> r is Ok,
    {
        if !input.git_options.should_commit || !input.files_were_staged {
            return Ok(input);
        }
        let mut input = input;
        let message = self.build_commit_message(&input.planned_releases);
        let commit_info = ctx.git_provider().commit(ctx.project_root(), message.as_str())?;
        input.commit_result = Some(CommitResult { sha: commit_info.sha, message: commit_info.message });
        Ok(input)
    }

    /// Resets to the parent commit when the release commits.
    fn compensate(&self, ctx: &Self::Context, input: ReleaseSagaData) -> (r: Result<()>)
        ensures
            !input.git_options.should_commit ==> r is Ok,
    {
        if input.git_options.should_commit {
            ctx.git_provider().reset_to_parent(ctx.project_root())?;
        }
        Ok(())
    }

    fn compensation_description(&self) -> (r: String)
        ensures
            r@ == "reset to parent commit"@,
    {
        String::from_str("reset to parent commit")
    }
}

/// A release tag: `name@vX.Y.Z` with the crate prefix, `vX.Y.Z` without.
pub open spec fn tag_name_spec(r: PackageVersion, use_prefix: bool) -> Seq<char> {
    if use_prefix {
        release_label(r)
    } else {
        "v"@ + crate::version::version_text(r.new_version@)
    }
}

/// The tag message: `Release name vX.Y.Z`.
pub open spec fn tag_message_spec(r: PackageVersion) -> Seq<char> {
    "Release "@ + r.name@ + " v"@ + crate::version::version_text(r.new_version@)
}

/// The tag of a planned release.
pub fn tag_name(r: &PackageVersion, use_prefix: bool) -> (t: String)
    ensures
        t@ == tag_name_spec(*r, use_prefix),
{
    if use_prefix {
        let mut t = r.name.clone();
        t.append("@v");
        t.append(r.new_version.to_string().as_str());
        t
    } else {
        let mut t = String::from_str("v");
        t.append(r.new_version.to_string().as_str());
        t
    }
}

/// The message of a planned release's tag.
fn tag_message(r: &PackageVersion) -> (t: String)
    ensures
        t@ == tag_message_spec(*r),
{
    let mut t = String::from_str("Release ");
    t.append(r.name.as_str());
    t.append(" v");
    t.append(r.new_version.to_string().as_str());
    t
}

/// Creates a tag for each released package.
pub struct CreateTagsStep<G, M, RW, S, C> {
    tag_format: crate::model::TagFormat,
    use_crate_prefix: bool,
    _marker: PhantomData<(G, M, RW, S, C)>,
}

impl<G, M, RW, S, C> CreateTagsStep<G, M, RW, S, C> {
    /// Whether tags carry the crate name.
    pub closed spec fn prefixed(&self) -> bool {
        self.use_crate_prefix || self.tag_format == crate::model::TagFormat::CratePrefixed
    }

    pub fn new(tag_format: crate::model::TagFormat, use_crate_prefix: bool) -> (r: Self)
        ensures
            r.prefixed() == (use_crate_prefix || tag_format == crate::model::TagFormat::CratePrefixed),
    {
        CreateTagsStep { tag_format, use_crate_prefix, _marker: PhantomData }
    }
}

impl<
    G: GitProvider,
    M: ManifestWriter,
    RW: ChangesetReader + ChangesetWriter,
    S: ReleaseStateIO,
    C: ChangelogWriter,
> SagaStep for CreateTagsStep<G, M, RW, S, C> {
    type Context = ReleaseSagaContext<G, M, RW, S, C>;

    fn name(&self) -> (r: &'static str)
        ensures
            r@ == "create_tags"@,
    {
        "create_tags"
    }

    /// Tags each release when the release tags and committed; if a tag
    /// cannot be created, deletes the tags it created and fails.
    #[verifier::loop_isolation(false)]
    fn execute(&self, ctx: &Self::Context, input: ReleaseSagaData) -> (r: Result<ReleaseSagaData>)
        ensures
            r matches Ok(out) ==> if input.git_options.should_create_tags && input.commit_result is Some {
                out == (ReleaseSagaData { tags_created: out.tags_created, ..input }) && out.tags_created@.len()
                    == input.planned_releases@.len()
            } else {
                out == input
            },
            !(input.git_options.should_create_tags && input.commit_result is Some) || input.planned_releases@.len() == 0
                ==> r is Ok,
    {
        if !input.git_options.should_create_tags || input.commit_result.is_none() {
            return Ok(input);
        }
        let mut input = input;
        let use_prefix = self.use_crate_prefix || self.tag_format == crate::model::TagFormat::CratePrefixed;
        let mut tags: Vec<TagResult> = Vec::new();
        let mut created: Vec<String> = Vec::new();
        let mut i: usize = 0;
        while i < input.planned_releases.len()
            invariant
                i <= input.planned_releases.len(),
                tags@.len() == i,
            decreases input.planned_releases.len() - i,
        {
            let release = &input.planned_releases[i];
            let name = tag_name(release, use_prefix);
            let message = tag_message(release);
            match ctx.git_provider().create_tag(ctx.project_root(), name.as_str(), message.as_str()) {
                Ok(info) => {
                    created.push(name);
                    tags.push(TagResult { name: info.name, target_sha: info.target_sha });
                },
                Err(e) => {
                    let mut j: usize = 0;
                    while j < created.len()
                        invariant
                            j <= created.len(),
                        decreases created.len() - j,
                    {
                        let _ = ctx.git_provider().delete_tag(ctx.project_root(), created[j].as_str());
                        j = j + 1;
                    }
                    return Err(e);
                },
            }
            i = i + 1;
        }
        input.tags_created = tags;
        Ok(input)
    }

    /// Deletes the tags of all planned releases; fails, naming them, if
    /// some could not be deleted.
    fn compensate(&self, ctx: &Self::Context, input: ReleaseSagaData) -> (r: Result<()>)
        ensures
            !input.git_options.should_create_tags ==> r is Ok,
            input.planned_releases@.len() == 0 ==> r is Ok,
            r matches Err(e) ==> e matches OperationError::TagDeletionFailed { failed_tags } && failed_tags@.len() > 0,
    {
        if !input.git_options.should_create_tags {
            return Ok(());
        }
        let use_prefix = self.use_crate_prefix || self.tag_format == crate::model::TagFormat::CratePrefixed;
        let mut failed_tags: Vec<String> = Vec::new();
        let mut i: usize = 0;
        while i < input.planned_releases.len()
            invariant
                i <= input.planned_releases.len(),
                failed_tags@.len() <= i,
            decreases input.planned_releases.len() - i,
        {
            let name = tag_name(&input.planned_releases[i], use_prefix);
            if ctx.git_provider().delete_tag(ctx.project_root(), name.as_str()).is_err() {
                failed_tags.push(name);
            }
            i = i + 1;
        }
        if failed_tags.len() == 0 {
            Ok(())
        } else {
            Err(OperationError::TagDeletionFailed { failed_tags })
        }
    }

    fn compensation_description(&self) -> (r: String)
        ensures
            r@ == "delete the created tags"@,
    {
        String::from_str("delete the created tags")
    }
}

/// Some state update recorded the state from before the release.
pub open spec fn records_original_state(d: ReleaseSagaData) -> bool {
    (d.prerelease_state_update matches Some(u) && u.original is Some) || (d.graduation_state_update matches Some(u)
        && u.original is Some)
}

/// Saves the pre-release and graduation state after the release.
pub struct UpdateReleaseStateStep<G, M, RW, S, C> {
    _marker: PhantomData<(G, M, RW, S, C)>,
}

impl<G, M, RW, S, C> UpdateReleaseStateStep<G, M, RW, S, C> {
    pub fn new() -> Self {
        UpdateReleaseStateStep { _marker: PhantomData }
    }
}

impl<
    G: GitProvider,
    M: ManifestWriter,
    RW: ChangesetReader + ChangesetWriter,
    S: ReleaseStateIO,
    C: ChangelogWriter,
> SagaStep for UpdateReleaseStateStep<G, M, RW, S, C> {
    type Context = ReleaseSagaContext<G, M, RW, S, C>;

    fn name(&self) -> (r: &'static str)
        ensures
            r@ == "update_release_state"@,
    {
        "update_release_state"
    }

    /// Saves each new state that was recorded.
    fn execute(&self, ctx: &Self::Context, input: ReleaseSagaData) -> (r: Result<ReleaseSagaData>)
        ensures
            r matches Ok(out) ==> out == input,
            input.prerelease_state_update is None && input.graduation_state_update is None ==> r is Ok,
    {
        match &input.prerelease_state_update {
            Some(update) => {
                ctx.release_state_io().save_prerelease_state(input.changeset_dir.as_str(), &update.new_state)?;
            },
            None => {},
        }
        match &input.graduation_state_update {
            Some(update) => {
                ctx.release_state_io().save_graduation_state(input.changeset_dir.as_str(), &update.new_state)?;
            },
            None => {},
        }
        Ok(input)
    }

    /// Saves the original states back.
    fn compensate(&self, ctx: &Self::Context, input: ReleaseSagaData) -> (r: Result<()>)
        ensures
            !records_original_state(input) ==> r is Ok,
    {
        match &input.prerelease_state_update {
            Some(update) => {
                match &update.original {
                    Some(original) => {
                        ctx.release_state_io().save_prerelease_state(input.changeset_dir.as_str(), original)?;
                    },
                    None => {},
                }
            },
            None => {},
        }
        match &input.graduation_state_update {
            Some(update) => {
                match &update.original {
                    Some(original) => {
                        ctx.release_state_io().save_graduation_state(input.changeset_dir.as_str(), original)?;
                    },
                    None => {},
                }
            },
            None => {},
        }
        Ok(())
    }

    fn compensation_description(&self) -> (r: String)
        ensures
            r@ == "restore original release state files"@,
    {
        String::from_str("restore original release state files")
    }
}

/// Every saved changelog existed and has no saved text, so nothing is
/// written back or deleted.
pub open spec fn no_changelog_to_restore(d: ReleaseSagaData) -> bool {
    forall|i: int|
        0 <= i < d.changelog_backups@.len() ==> (#[trigger] d.changelog_backups@[i]).file_existed
            && d.changelog_backups@[i].original_content is None
}

/// Does nothing forward; its compensation restores the changelogs the release wrote.
pub struct RestoreChangelogsStep<G, M, RW, S, C> {
    _marker: PhantomData<(G, M, RW, S, C)>,
}

impl<G, M, RW, S, C> RestoreChangelogsStep<G, M, RW, S, C> {
    pub fn new() -> Self {
        RestoreChangelogsStep { _marker: PhantomData }
    }
}

impl<
    G: GitProvider,
    M: ManifestWriter,
    RW: ChangesetReader + ChangesetWriter,
    S: ReleaseStateIO,
    C: ChangelogWriter,
> SagaStep for RestoreChangelogsStep<G, M, RW, S, C> {
    type Context = ReleaseSagaContext<G, M, RW, S, C>;

    fn name(&self) -> (r: &'static str)
        ensures
            r@ == "restore_changelogs"@,
    {
        "restore_changelogs"
    }

    fn execute(&self, ctx: &Self::Context, input: ReleaseSagaData) -> (r: Result<ReleaseSagaData>)
        ensures
            r matches Ok(out) && out == input,
    {
        Ok(input)
    }

    /// Restores each changelog that existed and deletes each that did not.
    fn compensate(&self, ctx: &Self::Context, input: ReleaseSagaData) -> (r: Result<()>)
        ensures
            no_changelog_to_restore(input) ==> r is Ok,
    {
        let mut i: usize = 0;
        while i < input.changelog_backups.len()
            invariant
                i <= input.changelog_backups.len(),
            decreases input.changelog_backups.len() - i,
        {
            let backup = &input.changelog_backups[i];
            if backup.file_existed {
                match &backup.original_content {
                    Some(content) => {
                        ctx.changelog_writer().restore_changelog(backup.path.as_str(), content.as_str())?;
                    },
                    None => {},
                }
            } else {
                ctx.changelog_writer().delete_changelog(backup.path.as_str())?;
            }
            i = i + 1;
        }
        Ok(())
    }

    fn compensation_description(&self) -> (r: String)
        ensures
            r@ == "restore original changelog files"@,
    {
        String::from_str("restore original changelog files")
    }
}

/// The name of the `k`-th step of a release.
pub open spec fn step_name_spec(k: int) -> Seq<char> {
    if k == 0 {
        "restore_changelogs"@
    } else if k == 1 {
        "write_manifest_versions"@
    } else if k == 2 {
        "update_dependency_versions"@
    } else if k == 3 {
        "remove_workspace_version"@
    } else if k == 4 {
        "mark_changesets_consumed"@
    } else if k == 5 {
        "clear_changesets_consumed"@
    } else if k == 6 {
        "delete_changeset_files"@
    } else if k == 7 {
        "stage_files"@
    } else if k == 8 {
        "create_commit"@
    } else if k == 9 {
        "create_tags"@
    } else if k == 10 {
        "update_release_state"@
    } else {
        Seq::empty()
    }
}

/// The number of steps of a release.
pub open spec fn step_count() -> int {
    11
}

/// What the compensation of the `k`-th step says it does.
pub open spec fn step_description_spec(k: int) -> Seq<char> {
    if k == 0 {
        "restore original changelog files"@
    } else if k == 1 {
        "restore original package versions in Cargo.toml files"@
    } else if k == 2 {
        "restore original dependency versions in Cargo.toml files"@
    } else if k == 3 {
        "restore workspace package version"@
    } else if k == 4 {
        "restore original changeset consumed status"@
    } else if k == 5 {
        "restore consumed changeset status"@
    } else if k == 6 {
        "restore deleted changeset files"@
    } else if k == 7 {
        "no action needed (file contents restored by other compensations)"@
    } else if k == 8 {
        "reset to parent commit"@
    } else if k == 9 {
        "delete the created tags"@
    } else {
        "restore original release state files"@
    }
}

/// What the `k`-th step makes of the data when it succeeds.
pub open spec fn step_ok(k: int, input: ReleaseSagaData, out: ReleaseSagaData) -> bool {
    if k == 1 {
        out == (ReleaseSagaData { manifest_updates: out.manifest_updates, ..input }) && manifest_update_views(
            out.manifest_updates@,
        ) == expected_manifest_updates(input.planned_releases@, input.package_paths@)
    } else if k == 2 {
        out == (ReleaseSagaData { dependency_updates: out.dependency_updates, ..input }) && forall|i: int|
            0 <= i < out.dependency_updates@.len() ==> explained_update(
                #[trigger] out.dependency_updates@[i],
                input.planned_releases@,
                manifests_of(input.package_paths@, input.root_manifest_path@),
            )
    } else if k == 3 {
        if input.inherited_packages@.len() > 0 {
            out == (ReleaseSagaData {
                original_workspace_version: out.original_workspace_version,
                workspace_version_removed: true,
                ..input
            })
        } else {
            out == input
        }
    } else if k == 4 {
        out == (ReleaseSagaData {
            changesets_consumed: input.changesets_consumed || (input.classification.is_prerelease_release
                && input.changeset_files@.len() > 0 && input.planned_releases@.len() > 0),
            ..input
        })
    } else if k == 5 {
        if input.classification.is_graduating {
            out == (ReleaseSagaData {
                consumed_cleared: out.consumed_cleared,
                consumed_files_cleared: out.consumed_files_cleared,
                ..input
            })
        } else {
            out == input
        }
    } else if k == 6 {
        if deletes_changesets(input) {
            out == (ReleaseSagaData { changeset_files: out.changeset_files, changesets_deleted: out.changesets_deleted, ..input })
                && views(out.changesets_deleted@) == file_paths(input.changeset_files@) && file_paths(out.changeset_files@)
                == file_paths(input.changeset_files@)
        } else {
            out == input
        }
    } else if k == 7 {
        if input.git_options.should_commit && stage_candidates(input).len() > 0 {
            out == (ReleaseSagaData { staged_files: out.staged_files, files_were_staged: true, ..input })
                && crate::text::strictly_sorted(views(out.staged_files@)) && forall|f: Seq<char>|
                views(out.staged_files@).contains(f) <==> stage_candidates(input).contains(f)
        } else {
            out == input
        }
    } else if k == 8 {
        if input.git_options.should_commit && input.files_were_staged {
            out == (ReleaseSagaData { commit_result: out.commit_result, ..input }) && out.commit_result is Some
        } else {
            out == input
        }
    } else if k == 9 {
        if input.git_options.should_create_tags && input.commit_result is Some {
            out == (ReleaseSagaData { tags_created: out.tags_created, ..input }) && out.tags_created@.len()
                == input.planned_releases@.len()
        } else {
            out == input
        }
    } else {
        out == input
    }
}

/// The inputs on which the `k`-th step calls no service, and so succeeds.
pub open spec fn step_owes_success(k: int, d: ReleaseSagaData) -> bool {
    if k == 0 {
        true
    } else if k == 1 {
        no_manifest_to_write(d)
    } else if k == 2 {
        d.planned_releases@.len() == 0
    } else if k == 3 {
        d.inherited_packages@.len() == 0
    } else if k == 4 {
        !(d.classification.is_prerelease_release && d.changeset_files@.len() > 0 && d.planned_releases@.len() > 0)
    } else if k == 5 {
        !d.classification.is_graduating
    } else if k == 6 {
        !deletes_changesets(d)
    } else if k == 7 {
        !(d.git_options.should_commit && stage_candidates(d).len() > 0)
    } else if k == 8 {
        !(d.git_options.should_commit && d.files_were_staged)
    } else if k == 9 {
        !(d.git_options.should_create_tags && d.commit_result is Some) || d.planned_releases@.len() == 0
    } else {
        d.prerelease_state_update is None && d.graduation_state_update is None
    }
}

/// The inputs on which the compensation of the `k`-th step calls no
/// service, and so succeeds.
pub open spec fn undo_owes_success(k: int, d: ReleaseSagaData) -> bool {
    if k == 0 {
        no_changelog_to_restore(d)
    } else if k == 1 {
        no_manifest_to_write(d)
    } else if k == 2 {
        d.planned_releases@.len() == 0
    } else if k == 3 {
        d.inherited_packages@.len() == 0
    } else if k == 4 {
        !has_unconsumed_file(d)
    } else if k == 5 {
        forall|i: int|
            0 <= i < d.consumed_files_cleared@.len() ==> (#[trigger] d.consumed_files_cleared@[i]).original_consumed_status
                is None
    } else if k == 6 {
        forall|i: int| 0 <= i < d.changeset_files@.len() ==> (#[trigger] d.changeset_files@[i]).backup is None
    } else if k == 7 {
        true
    } else if k == 8 {
        !d.git_options.should_commit
    } else if k == 9 {
        !d.git_options.should_create_tags
    } else {
        !records_original_state(d)
    }
}

/// The compensation of the `k`-th step cannot succeed on `d`: the
/// graduation step's compensation refuses a recorded version that does
/// not parse before it calls any service.
pub open spec fn undo_certainly_fails(k: int, d: ReleaseSagaData) -> bool {
    k == 5 && exists|m: int| #[trigger] first_status_unparsable(d, m)
}

proof fn lemma_same_statuses_fail(k: int, a: ReleaseSagaData, b: ReleaseSagaData)
    requires
        same_cleared_statuses(a, b),
        undo_certainly_fails(k, b),
    ensures
        undo_certainly_fails(k, a),
{
    let m = choose|m: int| #[trigger] first_status_unparsable(b, m);
    assert(a.consumed_files_cleared@[m].original_consumed_status == b.consumed_files_cleared@[m].original_consumed_status);
    assert forall|j: int| 0 <= j < m implies (#[trigger] a.consumed_files_cleared@[j]).original_consumed_status is None by {
        assert(b.consumed_files_cleared@[j].original_consumed_status is None);
    }
    assert(first_status_unparsable(a, m));
}

/// The `k`-th step turns `ds[k]` into `ds[k + 1]`.
pub open spec fn chain_link(ds: Seq<ReleaseSagaData>, k: int) -> bool {
    step_ok(k, ds[k], ds[k + 1])
}

/// Step `k` failed on `ds[k]`, after the steps before it turned `data`
/// into `ds[1]`, ..., `ds[k]`; it was not an input on which the step calls
/// no service.
pub open spec fn saga_failed_at(data: ReleaseSagaData, ds: Seq<ReleaseSagaData>, k: int) -> bool {
    &&& 0 <= k < step_count()
    &&& ds.len() == k + 1
    &&& ds[0] == data
    &&& forall|j: int| 0 <= j < k ==> #[trigger] chain_link(ds, j)
    &&& !step_owes_success(k, ds[k])
}

/// The compensation failures of a saga that failed at step `k`: steps
/// before `k`, in the reverse order they ran, including every step whose
/// compensation could not succeed on the input that step had been given.
pub open spec fn compensation_record(failures: Seq<CompensationFailure>, k: int, ds: Seq<ReleaseSagaData>) -> bool {
    exists|idx: Seq<int>|
        #![trigger idx.len()]
        idx.len() == failures.len() && (forall|i: int|
            0 <= i < idx.len() ==> 0 <= #[trigger] idx[i] < k && failures[i].step@ == step_name_spec(idx[i])) && (forall|
            i: int,
            j: int,
        |
            #![trigger idx[i], idx[j]]
            0 <= i < j < idx.len() ==> idx[i] > idx[j]) && (forall|jj: int|
            0 <= jj < k && #[trigger] undo_certainly_fails(jj, ds[jj]) ==> idx.contains(jj))
}

/// Running all steps in order, each succeeding, turns `data` into `out`.
pub open spec fn saga_chain(data: ReleaseSagaData, out: ReleaseSagaData) -> bool {
    exists|ds: Seq<ReleaseSagaData>|
        #![trigger ds.len()]
        ds.len() == step_count() + 1 && ds[0] == data && ds[step_count()] == out && forall|k: int|
            0 <= k < step_count() ==> #[trigger] chain_link(ds, k)
}

/// The steps of a release, in the order they run.
pub struct ReleaseSaga<G, M, RW, S, C> {
    restore_changelogs: RestoreChangelogsStep<G, M, RW, S, C>,
    write_manifests: WriteManifestVersionsStep<G, M, RW, S, C>,
    update_dependencies: UpdateDependencyVersionsStep<G, M, RW, S, C>,
    remove_workspace_version: RemoveWorkspaceVersionStep<G, M, RW, S, C>,
    mark_consumed: MarkChangesetsConsumedStep<G, M, RW, S, C>,
    clear_consumed: ClearChangesetsConsumedStep<G, M, RW, S, C>,
    delete_changesets: DeleteChangesetFilesStep<G, M, RW, S, C>,
    stage_files: StageFilesStep<G, M, RW, S, C>,
    create_commit: CreateCommitStep<G, M, RW, S, C>,
    create_tags: CreateTagsStep<G, M, RW, S, C>,
    update_state: UpdateReleaseStateStep<G, M, RW, S, C>,
}

/// The steps that failed to compensate, as step positions: strictly
/// decreasing, all before `k`.
pub open spec fn compensation_order(failures: Seq<CompensationFailure>, k: int) -> bool {
    exists|idx: Seq<int>|
        #![trigger idx.len()]
        idx.len() == failures.len() && (forall|i: int|
            0 <= i < idx.len() ==> 0 <= #[trigger] idx[i] < k && failures[i].step@ == step_name_spec(idx[i])) && (forall|
            i: int,
            j: int,
        |
            #![trigger idx[i], idx[j]]
            0 <= i < j < idx.len() ==> idx[i] > idx[j])
}

impl<
    G: GitProvider,
    M: ManifestWriter,
    RW: ChangesetReader + ChangesetWriter,
    S: ReleaseStateIO,
    C: ChangelogWriter,
> ReleaseSaga<G, M, RW, S, C> {
    /// The steps; the commit and tag steps take the git settings.
    /// The template and body setting of the commit step, and whether the
    /// tag step prefixes tags with the crate name.
    pub closed spec fn settings(&self) -> (Seq<char>, bool, bool) {
        (self.create_commit.template(), self.create_commit.includes_body(), self.create_tags.prefixed())
    }

    pub fn new(
        commit_title_template: String,
        changes_in_body: bool,
        tag_format: crate::model::TagFormat,
        use_crate_prefix: bool,
    ) -> (r: Self)
        ensures
            r.settings() == (
                commit_title_template@,
                changes_in_body,
                use_crate_prefix || tag_format == crate::model::TagFormat::CratePrefixed,
            ),
    {
        ReleaseSaga {
            restore_changelogs: RestoreChangelogsStep::new(),
            write_manifests: WriteManifestVersionsStep::new(),
            update_dependencies: UpdateDependencyVersionsStep::new(),
            remove_workspace_version: RemoveWorkspaceVersionStep::new(),
            mark_consumed: MarkChangesetsConsumedStep::new(),
            clear_consumed: ClearChangesetsConsumedStep::new(),
            delete_changesets: DeleteChangesetFilesStep::new(),
            stage_files: StageFilesStep::new(),
            create_commit: CreateCommitStep::new(commit_title_template, changes_in_body),
            create_tags: CreateTagsStep::new(tag_format, use_crate_prefix),
            update_state: UpdateReleaseStateStep::new(),
        }
    }

    fn step_name(&self, k: usize) -> (r: &'static str)
        requires
            k < step_count(),
        ensures
            r@ == step_name_spec(k as int),
    {
        match k {
            0 => self.restore_changelogs.name(),
            1 => self.write_manifests.name(),
            2 => self.update_dependencies.name(),
            3 => self.remove_workspace_version.name(),
            4 => self.mark_consumed.name(),
            5 => self.clear_consumed.name(),
            6 => self.delete_changesets.name(),
            7 => self.stage_files.name(),
            8 => self.create_commit.name(),
            9 => self.create_tags.name(),
            _ => self.update_state.name(),
        }
    }

    fn step_description(&self, k: usize) -> (r: String)
        requires
            k < step_count(),
        ensures
            r@ == step_description_spec(k as int),
    {
        match k {
            0 => self.restore_changelogs.compensation_description(),
            1 => self.write_manifests.compensation_description(),
            2 => self.update_dependencies.compensation_description(),
            3 => self.remove_workspace_version.compensation_description(),
            4 => self.mark_consumed.compensation_description(),
            5 => self.clear_consumed.compensation_description(),
            6 => self.delete_changesets.compensation_description(),
            7 => self.stage_files.compensation_description(),
            8 => self.create_commit.compensation_description(),
            9 => self.create_tags.compensation_description(),
            _ => self.update_state.compensation_description(),
        }
    }

    fn run_step(&self, k: usize, ctx: &ReleaseSagaContext<G, M, RW, S, C>, data: ReleaseSagaData) -> (r: Result<ReleaseSagaData>)
        requires
            k < step_count(),
        ensures
            r matches Ok(out) ==> step_ok(k as int, data, out),
            step_owes_success(k as int, data) ==> r is Ok,
    {
        match k {
            0 => self.restore_changelogs.execute(ctx, data),
            1 => self.write_manifests.execute(ctx, data),
            2 => self.update_dependencies.execute(ctx, data),
            3 => self.remove_workspace_version.execute(ctx, data),
            4 => self.mark_consumed.execute(ctx, data),
            5 => self.clear_consumed.execute(ctx, data),
            6 => self.delete_changesets.execute(ctx, data),
            7 => self.stage_files.execute(ctx, data),
            8 => self.create_commit.execute(ctx, data),
            9 => self.create_tags.execute(ctx, data),
            _ => self.update_state.execute(ctx, data),
        }
    }

    fn undo_step(&self, k: usize, ctx: &ReleaseSagaContext<G, M, RW, S, C>, data: ReleaseSagaData) -> (r: Result<()>)
        requires
            k < step_count(),
        ensures
            undo_owes_success(k as int, data) ==> r is Ok,
            undo_certainly_fails(k as int, data) ==> r is Err,
    {
        match k {
            0 => self.restore_changelogs.compensate(ctx, data),
            1 => self.write_manifests.compensate(ctx, data),
            2 => self.update_dependencies.compensate(ctx, data),
            3 => self.remove_workspace_version.compensate(ctx, data),
            4 => self.mark_consumed.compensate(ctx, data),
            5 => self.clear_consumed.compensate(ctx, data),
            6 => self.delete_changesets.compensate(ctx, data),
            7 => self.stage_files.compensate(ctx, data),
            8 => self.create_commit.compensate(ctx, data),
            9 => self.create_tags.compensate(ctx, data),
            _ => self.update_state.compensate(ctx, data),
        }
    }

    /// Runs the steps in order, each on the data the previous one returned.
    /// When a step fails, the steps before it are compensated in reverse
    /// order, each with the data it started from; the error names the
    /// failing step and, if some compensations failed too, lists them in
    /// the order they ran.
    pub fn execute(&self, ctx: &ReleaseSagaContext<G, M, RW, S, C>, data: ReleaseSagaData) -> (r: Result<ReleaseSagaData>)
        ensures
            r matches Err(e) ==> exists|k: int, ds: Seq<ReleaseSagaData>|
                #[trigger] saga_failed_at(data, ds, k) && match e {
                    OperationError::SagaFailed { step, .. } => step@ == step_name_spec(k) && forall|jj: int|
                        0 <= jj < k ==> !#[trigger] undo_certainly_fails(jj, ds[jj]),
                    OperationError::SagaCompensationFailed { step, compensation_failures, .. } => step@ == step_name_spec(k)
                        && compensation_failures@.len() > 0 && compensation_order(compensation_failures@, k)
                        && compensation_record(compensation_failures@, k, ds),
                    _ => false,
                },
            r matches Ok(out) ==> saga_chain(data, out),
    {
        let mut inputs: Vec<ReleaseSagaData> = Vec::new();
        let mut current = data;
        let ghost mut ds: Seq<ReleaseSagaData> = seq![current];
        let mut k: usize = 0;
        while k < 11
            invariant
                k <= 11,
                inputs@.len() == k,
                ds.len() == k + 1,
                ds[0] == data,
                ds[k as int] == current,
                forall|j: int| 0 <= j < k ==> #[trigger] chain_link(ds, j),
                forall|j: int| 0 <= j < k ==> same_cleared_statuses(#[trigger] inputs@[j], ds[j]),
            decreases 11 - k,
        {
            let snapshot = current.snapshot();
            let ghost before = current;
            match self.run_step(k, ctx, current) {
                Ok(next) => {
                    let ghost old_inputs = inputs@;
                    inputs.push(snapshot);
                    proof {
                        assert forall|j: int| 0 <= j < k + 1 implies same_cleared_statuses(#[trigger] inputs@[j], ds[j]) by {
                            if j < k {
                                assert(inputs@[j] == old_inputs[j]);
                            }
                        }
                        let old_ds = ds;
                        ds = ds.push(next);
                        assert forall|j: int| 0 <= j < k + 1 implies #[trigger] chain_link(ds, j) by {
                            assert(ds[j] == old_ds[j]);
                            if j < k {
                                assert(ds[j + 1] == old_ds[j + 1]);
                                assert(chain_link(old_ds, j));
                            }
                        }
                    }
                    current = next;
                },
                Err(e) => {
                    let mut failures: Vec<CompensationFailure> = Vec::new();
                    let ghost mut idx: Seq<int> = Seq::empty();
                    let mut j: usize = k;
                    while j > 0
                        invariant
                            j <= k,
                            k < 11,
                            inputs@.len() == j,
                            ds.len() == k + 1,
                            forall|i: int| 0 <= i < j ==> same_cleared_statuses(#[trigger] inputs@[i], ds[i]),
                            forall|jj: int| j <= jj < k && #[trigger] undo_certainly_fails(jj, ds[jj]) ==> idx.contains(jj),
                            idx.len() == failures@.len(),
                            forall|i: int|
                                0 <= i < idx.len() ==> j <= #[trigger] idx[i] < k && failures@[i].step@ == step_name_spec(idx[i]),
                            forall|a: int, b: int| #![trigger idx[a], idx[b]] 0 <= a < b < idx.len() ==> idx[a] > idx[b],
                        decreases j,
                    {
                        j = j - 1;
                        let ghost old_inputs = inputs@;
                        let input = inputs.pop().unwrap();
                        proof {
                            assert(input == old_inputs[j as int]);
                            assert(same_cleared_statuses(old_inputs[j as int], ds[j as int]));
                            if undo_certainly_fails(j as int, ds[j as int]) {
                                lemma_same_statuses_fail(j as int, input, ds[j as int]);
                            }
                            assert forall|i: int| 0 <= i < j implies same_cleared_statuses(#[trigger] inputs@[i], ds[i]) by {
                                assert(inputs@[i] == old_inputs[i]);
                            }
                        }
                        let ghost old_idx = idx;
                        match self.undo_step(j, ctx, input) {
                            Ok(()) => {},
                            Err(ce) => {
                                let step = owned(self.step_name(j));
                                failures.push(CompensationFailure {
                                    step,
                                    description: self.step_description(j),
                                    error: Box::new(ce),
                                });
                                proof {
                                    idx = idx.push(j as int);
                                    assert(idx[idx.len() - 1] == j as int);
                                }
                            },
                        }
                        proof {
                            assert forall|jj: int| j <= jj < k && #[trigger] undo_certainly_fails(jj, ds[jj]) implies idx.contains(jj) by {
                                if jj > j {
                                    let w = choose|w: int| 0 <= w < old_idx.len() && old_idx[w] == jj;
                                    assert(idx[w] == old_idx[w]);
                                } else {
                                    assert(idx[idx.len() - 1] == j as int);
                                }
                            }
                        }
                    }
                    let step = owned(self.step_name(k));
                    proof {
                        assert(saga_failed_at(data, ds, k as int));
                    }
                    if failures.len() == 0 {
                        proof {
                            assert forall|jj: int| 0 <= jj < k implies !#[trigger] undo_certainly_fails(jj, ds[jj]) by {
                                if undo_certainly_fails(jj, ds[jj]) {
                                    assert(idx.contains(jj));
                                }
                            }
                        }
                        return Err(OperationError::SagaFailed { step, source: Box::new(e) });
                    }
                    proof {
                        assert(idx.len() == failures@.len());
                        assert(compensation_record(failures@, k as int, ds));
                    }
                    return Err(OperationError::SagaCompensationFailed { step, source: Box::new(e), compensation_failures: failures });
                },
            }
            k = k + 1;
        }
        proof {
            assert(ds.len() == step_count() + 1);
        }
        Ok(current)
    }
}

} // verus!

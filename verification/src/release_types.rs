//! What a release reports, and the options and backups a release carries
//! through its steps.
use vstd::prelude::*;

use crate::model::{Changeset, PackageVersion};
use crate::release_state::{GraduationState, PrereleaseState};
use crate::version::Version;

verus! {

/// A changelog that a release wrote.
#[derive(Debug, Clone)]
pub struct ChangelogUpdate {
    pub path: String,
    /// The package of a per-package changelog; `None` for the root one.
    pub package: Option<String>,
    pub version: Version,
    /// Whether the changelog file was created.
    pub created: bool,
}

impl ChangelogUpdate {
    pub fn new(path: String, package: Option<String>, version: Version, created: bool) -> (r: Self)
        ensures
            r.path == path,
            r.package == package,
            r.version == version,
            r.created == created,
    {
        ChangelogUpdate { path, package, version, created }
    }
}

/// The release commit.
#[derive(Debug, Clone)]
pub struct CommitResult {
    pub sha: String,
    pub message: String,
}

impl CommitResult {
    pub fn new(sha: String, message: String) -> (r: Self)
        ensures
            r.sha == sha,
            r.message == message,
    {
        CommitResult { sha, message }
    }

    pub fn sha(&self) -> (r: &String)
        ensures
            r == &self.sha,
    {
        &self.sha
    }

    pub fn message(&self) -> (r: &String)
        ensures
            r == &self.message,
    {
        &self.message
    }
}

/// A release tag.
#[derive(Debug, Clone)]
pub struct TagResult {
    pub name: String,
    pub target_sha: String,
}

impl TagResult {
    pub fn new(name: String, target_sha: String) -> (r: Self)
        ensures
            r.name == name,
            r.target_sha == target_sha,
    {
        TagResult { name, target_sha }
    }

    pub fn name(&self) -> (r: &String)
        ensures
            r == &self.name,
    {
        &self.name
    }

    pub fn target_sha(&self) -> (r: &String)
        ensures
            r == &self.target_sha,
    {
        &self.target_sha
    }
}

/// What a release did in git.
#[derive(Debug, Clone)]
pub struct GitOperationResult {
    pub commit: Option<CommitResult>,
    pub tags_created: Vec<TagResult>,
    pub changesets_deleted: Vec<String>,
}

impl GitOperationResult {
    pub fn new(commit: Option<CommitResult>, tags_created: Vec<TagResult>, changesets_deleted: Vec<String>) -> (r: Self)
        ensures
            r.commit == commit,
            r.tags_created == tags_created,
            r.changesets_deleted == changesets_deleted,
    {
        GitOperationResult { commit, tags_created, changesets_deleted }
    }

    pub fn commit(&self) -> (r: Option<&CommitResult>)
        ensures
            r == match &self.commit {
                Some(c) => Some(c),
                None => None::<&CommitResult>,
            },
    {
        match &self.commit {
            Some(c) => Some(c),
            None => None,
        }
    }

    pub fn tags_created(&self) -> (r: &Vec<TagResult>)
        ensures
            r == &self.tags_created,
    {
        &self.tags_created
    }

    pub fn changesets_deleted(&self) -> (r: &Vec<String>)
        ensures
            r == &self.changesets_deleted,
    {
        &self.changesets_deleted
    }
}

/// What a release planned and did.
#[derive(Debug)]
pub struct ReleaseOutput {
    pub planned_releases: Vec<PackageVersion>,
    pub unchanged_packages: Vec<String>,
    pub changesets_consumed: Vec<String>,
    pub changelog_updates: Vec<ChangelogUpdate>,
    pub git_result: Option<GitOperationResult>,
}

impl ReleaseOutput {
    pub fn new(
        planned_releases: Vec<PackageVersion>,
        unchanged_packages: Vec<String>,
        changesets_consumed: Vec<String>,
        changelog_updates: Vec<ChangelogUpdate>,
        git_result: Option<GitOperationResult>,
    ) -> (r: Self)
        ensures
            r.planned_releases == planned_releases,
            r.unchanged_packages == unchanged_packages,
            r.changesets_consumed == changesets_consumed,
            r.changelog_updates == changelog_updates,
            r.git_result == git_result,
    {
        ReleaseOutput { planned_releases, unchanged_packages, changesets_consumed, changelog_updates, git_result }
    }

    /// The output with the git result set.
    pub fn with_git_result(self, git_result: GitOperationResult) -> (r: Self)
        ensures
            r.planned_releases == self.planned_releases,
            r.unchanged_packages == self.unchanged_packages,
            r.changesets_consumed == self.changesets_consumed,
            r.changelog_updates == self.changelog_updates,
            r.git_result == Some(git_result),
    {
        ReleaseOutput { git_result: Some(git_result), ..self }
    }

    pub fn planned_releases(&self) -> (r: &Vec<PackageVersion>)
        ensures
            r == &self.planned_releases,
    {
        &self.planned_releases
    }

    pub fn unchanged_packages(&self) -> (r: &Vec<String>)
        ensures
            r == &self.unchanged_packages,
    {
        &self.unchanged_packages
    }

    pub fn changesets_consumed(&self) -> (r: &Vec<String>)
        ensures
            r == &self.changesets_consumed,
    {
        &self.changesets_consumed
    }

    pub fn changelog_updates(&self) -> (r: &Vec<ChangelogUpdate>)
        ensures
            r == &self.changelog_updates,
    {
        &self.changelog_updates
    }

    pub fn git_result(&self) -> (r: Option<&GitOperationResult>)
        ensures
            r == match &self.git_result {
                Some(g) => Some(g),
                None => None::<&GitOperationResult>,
            },
    {
        match &self.git_result {
            Some(g) => Some(g),
            None => None,
        }
    }
}

/// How a release ended.
#[derive(Debug)]
pub enum ReleaseOutcome {
    /// Planned only.
    DryRun(ReleaseOutput),
    Executed(ReleaseOutput),
    /// Nothing to release.
    NoChangesets,
}

/// What a release does in git.
#[derive(Debug, Clone, Copy, PartialEq, Eq, Structural)]
pub struct GitOptions {
    pub should_commit: bool,
    pub should_create_tags: bool,
    pub should_delete_changesets: bool,
}

/// What kind of release this is.
#[derive(Debug, Clone, Copy, PartialEq, Eq, Structural)]
pub struct ReleaseClassification {
    /// Pre-release packages are released as normal versions.
    pub is_prerelease_graduation: bool,
    /// Some package graduates, from a pre-release or from `0.x`.
    pub is_graduating: bool,
    /// Some package is released as a pre-release.
    pub is_prerelease_release: bool,
}

/// The options a release's steps follow.
#[derive(Debug, Clone, Copy, PartialEq, Eq, Structural)]
pub struct SagaReleaseOptions {
    pub classification: ReleaseClassification,
    pub git_options: GitOptions,
}

/// A changelog as it was before the release.
#[derive(Debug, Clone)]
pub struct ChangelogFileState {
    pub path: String,
    pub original_content: Option<String>,
    pub file_existed: bool,
}

/// A changeset file as it was before the release.
#[derive(Debug, Clone)]
pub struct ChangesetFileState {
    pub path: String,
    /// The version the changeset was consumed for, if any.
    pub original_consumed_status: Option<String>,
    /// The changeset, read before it was deleted.
    pub backup: Option<Changeset>,
}

/// The pre-release state before and after the release.
#[derive(Debug, Clone)]
pub struct PrereleaseStateUpdate {
    pub original: Option<PrereleaseState>,
    pub new_state: PrereleaseState,
}

/// The graduation queue before and after the release.
#[derive(Debug, Clone)]
pub struct GraduationStateUpdate {
    pub original: Option<GraduationState>,
    pub new_state: GraduationState,
}

} // verus!

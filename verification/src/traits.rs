//! The services an operation works through: project discovery, changeset
//! files, git, manifests, changelogs, release state and user interaction.
//! Applications implement them; the operations are verified for whatever
//! the implementations return.
use vstd::prelude::*;

use crate::changelog::{ChangelogWriteResult, RepositoryInfo, VersionRelease};
use crate::config::{
    AdditionalPackageDeclaration, AdditionalPackageField, AdditionalPackageUpdate, ChangelogSettingsInput,
    FilteringSettingsInput, GitSettingsInput, InitConfig, ManifestFormat, MetadataSection,
    PackageChangesetConfig, ProjectContext, RootChangesetConfig, VersionSettingsInput,
};
use crate::error::Result;
use crate::git::{CommitInfo, FileChange, TagInfo};
use crate::graph::WorkspaceDependencyGraph;
use crate::model::{CargoProject, ChangeCategory, Changeset, PackageInfo};
use crate::release_state::{GraduationState, PrereleaseState};
use crate::version::{BumpType, Version};

verus! {

/// A choice from a menu, or the user backing out.
#[derive(Debug, PartialEq, Eq, Clone)]
pub enum MenuSelection<T> {
    Selected(T),
    Cancelled,
}

/// The packages a user picked for a changeset.
#[derive(Debug)]
pub enum PackageSelection {
    Selected(Vec<PackageInfo>),
    Cancelled,
}

/// The bump type a user picked.
#[derive(Debug, PartialEq, Eq, Clone, Copy)]
pub enum BumpSelection {
    Selected(BumpType),
    Cancelled,
}

/// The category a user picked.
#[derive(Debug, PartialEq, Eq, Clone, Copy)]
pub enum CategorySelection {
    Selected(ChangeCategory),
    Cancelled,
}

/// The description a user typed.
#[derive(Debug, PartialEq, Eq, Clone)]
pub enum DescriptionInput {
    Provided(String),
    Cancelled,
}

/// The actions of the pre-release menu.
#[derive(Debug, PartialEq, Eq, Structural, Clone, Copy)]
pub enum PrereleaseAction {
    Add,
    Remove,
    Graduate,
    Done,
}

/// The actions of the graduation menu.
#[derive(Debug, PartialEq, Eq, Structural, Clone, Copy)]
pub enum GraduationAction {
    Add,
    Remove,
    Done,
}

/// Finds the project and its configuration.
pub trait ProjectProvider {
    fn discover_project(&self, start_path: &str) -> Result<CargoProject>;

    /// The root configuration and each package's own configuration.
    fn load_configs(&self, project: &CargoProject) -> Result<(RootChangesetConfig, Vec<(String, PackageChangesetConfig)>)>;

    /// Creates the changeset directory if needed and returns its path.
    fn ensure_changeset_dir(&self, project: &CargoProject, config: &RootChangesetConfig) -> Result<String>;

    /// The additional packages declared for a workspace, as packages.
    fn discover_additional_packages(&self, root: &str, config: &RootChangesetConfig) -> Result<Vec<PackageInfo>>;

    /// Whether a file or directory exists.
    fn path_exists(&self, path: &str) -> bool;

    /// Writes a file, creating or replacing it.
    fn write_file(&self, path: &str, contents: &str) -> Result<()>;
}

/// Builds the dependency graph of a project's packages.
pub trait DependencyGraphProvider {
    fn build_dependency_graph(&self, project: &CargoProject) -> Result<WorkspaceDependencyGraph>;
}

/// Reads changeset files.
pub trait ChangesetReader {
    fn read_changeset(&self, path: &str) -> Result<Changeset>;

    /// The pending changeset files of a changeset directory.
    fn list_changesets(&self, changeset_dir: &str) -> Result<Vec<String>>;

    /// The changeset files already consumed by a pre-release.
    fn list_consumed_changesets(&self, changeset_dir: &str) -> Result<Vec<String>>;
}

/// Writes changeset files.
pub trait ChangesetWriter {
    /// Writes a new changeset and returns its file name.
    fn write_changeset(&self, changeset_dir: &str, changeset: &Changeset) -> Result<String>;

    fn restore_changeset(&self, path: &str, changeset: &Changeset) -> Result<()>;

    fn filename_exists(&self, changeset_dir: &str, filename: &str) -> bool;

    fn mark_consumed_for_prerelease(&self, changeset_dir: &str, paths: &[String], version: &Version) -> Result<()>;

    fn clear_consumed_for_prerelease(&self, changeset_dir: &str, paths: &[String]) -> Result<()>;
}

/// Lists changed files between two revisions.
pub trait GitDiffProvider {
    fn changed_files(&self, project_root: &str, base: &str, head: &str) -> Result<Vec<FileChange>>;
}

/// Lists uncommitted changes of the working tree.
pub trait GitWorkdirDiffProvider {
    fn uncommitted_changes(&self, project_root: &str) -> Result<Vec<FileChange>>;
}

/// Reports the state of the repository.
pub trait GitStatusProvider {
    fn is_working_tree_clean(&self, project_root: &str) -> Result<bool>;

    fn current_branch(&self, project_root: &str) -> Result<String>;

    fn remote_url(&self, project_root: &str) -> Result<Option<String>>;
}

/// Stages and deletes files.
pub trait GitStagingProvider {
    fn stage_files(&self, project_root: &str, paths: &[String]) -> Result<()>;

    fn delete_files(&self, project_root: &str, paths: &[String]) -> Result<()>;
}

/// Creates and undoes commits.
pub trait GitCommitProvider {
    fn commit(&self, project_root: &str, message: &str) -> Result<CommitInfo>;

    fn reset_to_parent(&self, project_root: &str) -> Result<()>;
}

/// Creates and deletes tags.
pub trait GitTagProvider {
    fn create_tag(&self, project_root: &str, tag_name: &str, message: &str) -> Result<TagInfo>;

    /// Deletes a tag; tells whether it existed.
    fn delete_tag(&self, project_root: &str, tag_name: &str) -> Result<bool>;
}

/// Everything a release does in git.
pub trait GitProvider: GitStatusProvider + GitStagingProvider + GitCommitProvider + GitTagProvider {

}

/// Tells whether a package manifest inherits its version from the workspace.
pub trait InheritedVersionChecker {
    fn has_inherited_version(&self, manifest_path: &str) -> Result<bool>;
}

/// Writes package versions into manifests.
pub trait ManifestVersionWriter {
    fn write_version(&self, manifest_path: &str, new_version: &Version) -> Result<()>;

    /// Fails unless the manifest holds `expected`.
    fn verify_version(&self, manifest_path: &str, expected: &Version) -> Result<()>;
}

/// Updates the version requirement of a dependency in a manifest.
pub trait ManifestDependencyWriter {
    /// Tells whether the manifest had the dependency.
    fn update_dependency_version(&self, manifest_path: &str, dependency_name: &str, new_version: &Version) -> Result<bool>;
}

/// Reads and changes the workspace-wide package version.
pub trait WorkspaceVersionManager {
    fn read_workspace_version(&self, manifest_path: &str) -> Result<Option<Version>>;

    fn remove_workspace_version(&self, manifest_path: &str) -> Result<()>;

    fn write_workspace_version(&self, manifest_path: &str, version: &Version) -> Result<()>;
}

/// Writes the changeset configuration into a manifest.
pub trait ManifestMetadataWriter {
    fn write_metadata(&self, manifest_path: &str, section: MetadataSection, config: &InitConfig) -> Result<()>;
}

/// Everything a release writes into manifests.
pub trait ManifestWriter: InheritedVersionChecker + ManifestVersionWriter + ManifestDependencyWriter + WorkspaceVersionManager {

}

/// Writes changelogs.
pub trait ChangelogWriter {
    fn write_release(
        &self,
        changelog_path: &str,
        release: &VersionRelease,
        repo_info: Option<&RepositoryInfo>,
        previous_version: Option<&str>,
    ) -> Result<ChangelogWriteResult>;

    fn changelog_exists(&self, path: &str) -> bool;

    /// The current text of a changelog.
    fn read_changelog(&self, path: &str) -> Result<String>;

    fn restore_changelog(&self, path: &str, content: &str) -> Result<()>;

    fn delete_changelog(&self, path: &str) -> Result<()>;
}

/// Loads and saves the pre-release and graduation state files.
pub trait ReleaseStateIO {
    fn load_prerelease_state(&self, changeset_dir: &str) -> Result<Option<PrereleaseState>>;

    fn save_prerelease_state(&self, changeset_dir: &str, state: &PrereleaseState) -> Result<()>;

    fn load_graduation_state(&self, changeset_dir: &str) -> Result<Option<GraduationState>>;

    fn save_graduation_state(&self, changeset_dir: &str, state: &GraduationState) -> Result<()>;
}

/// Asks the user what a new changeset holds.
pub trait InteractionProvider {
    fn select_packages(&self, available: &[PackageInfo]) -> Result<PackageSelection>;

    fn select_bump_type(&self, package_name: &str) -> Result<BumpSelection>;

    fn select_category(&self) -> Result<CategorySelection>;

    fn get_description(&self) -> Result<DescriptionInput>;
}

/// Asks the user how to change the pre-release state.
pub trait PrereleaseInteractionProvider {
    fn select_prerelease_action(&self) -> Result<MenuSelection<PrereleaseAction>>;

    /// Picks one of `available` by its position.
    fn select_package_for_prerelease(&self, available: &[PackageInfo]) -> Result<MenuSelection<usize>>;

    fn get_prerelease_tag(&self) -> Result<String>;

    /// Picks one of the (name, tag) entries by its position.
    fn select_package_to_remove_prerelease(&self, entries: &[(String, String)]) -> Result<MenuSelection<usize>>;
}

/// Asks the user how to change the graduation queue.
pub trait GraduationInteractionProvider {
    fn select_graduation_action(&self) -> Result<MenuSelection<GraduationAction>>;

    /// Picks one of `eligible` by its position.
    fn select_package_for_graduation(&self, eligible: &[PackageInfo]) -> Result<MenuSelection<usize>>;

    /// Picks one of the queued names by its position.
    fn select_package_to_remove_graduation(&self, names: &[String]) -> Result<MenuSelection<usize>>;
}

/// Asks the user about additional packages.
pub trait AdditionalPackageInteractionProvider {
    fn prompt_package_name(&self) -> Result<String>;

    fn prompt_package_path(&self) -> Result<String>;

    fn prompt_influence_patterns(&self, package_path: &str) -> Result<Vec<String>>;

    fn prompt_manifest_file_path(&self) -> Result<String>;

    fn prompt_manifest_format(&self) -> Result<ManifestFormat>;

    fn prompt_manifest_version_field_path(&self) -> Result<String>;

    fn select_package_to_remove(&self, packages: &[AdditionalPackageDeclaration]) -> Result<MenuSelection<usize>>;

    fn confirm_removal(&self, name: &str) -> Result<bool>;

    fn select_package_to_edit(&self, packages: &[AdditionalPackageDeclaration]) -> Result<MenuSelection<usize>>;

    fn select_field_to_edit(&self) -> Result<MenuSelection<AdditionalPackageField>>;
}

/// Writes additional package declarations into the root manifest.
pub trait AdditionalPackageConfigWriter {
    fn add_additional_package(
        &self,
        manifest_path: &str,
        section: MetadataSection,
        declaration: &AdditionalPackageDeclaration,
    ) -> Result<()>;

    fn remove_additional_package(&self, manifest_path: &str, section: MetadataSection, name: &str) -> Result<()>;

    fn update_additional_package(
        &self,
        manifest_path: &str,
        section: MetadataSection,
        name: &str,
        updates: &AdditionalPackageUpdate,
    ) -> Result<()>;
}

/// Asks the user for the settings `init` writes.
pub trait InitInteractionProvider {
    fn configure_git_settings(&self, context: ProjectContext) -> Result<Option<GitSettingsInput>>;

    fn configure_changelog_settings(&self, context: ProjectContext) -> Result<Option<ChangelogSettingsInput>>;

    fn configure_version_settings(&self) -> Result<Option<VersionSettingsInput>>;

    fn configure_filtering_settings(&self) -> Result<Option<FilteringSettingsInput>>;
}

} // verus!

//! Project configuration as the operations read it: where changesets live,
//! what a release does in git, how changelogs are written, and which
//! packages outside Cargo are versioned alongside the crates.
use vstd::prelude::*;

use crate::model::{NoneBumpBehavior, TagFormat};

verus! {

/// Where changelog entries are written.
#[derive(Debug, PartialEq, Eq, Structural, Clone, Copy, Hash)]
pub enum ChangelogLocation {
    /// One `CHANGELOG.md` at the project root.
    Root,
    /// One `CHANGELOG.md` in each package directory.
    PerPackage,
}

/// Whether changelog headings link to a comparison between releases.
#[derive(Debug, PartialEq, Eq, Structural, Clone, Copy, Hash)]
pub enum ComparisonLinks {
    /// Links when the repository host is known.
    Auto,
    Enabled,
    Disabled,
}

/// How a major bump is treated on a `0.x` version.
#[derive(Debug, PartialEq, Eq, Structural, Clone, Copy, Hash)]
pub enum ZeroVersionBehavior {
    /// A major bump on `0.x` raises the minor component.
    EffectiveMinor,
    /// A major bump on `0.x` promotes the package to `1.0.0`.
    AutoPromoteOnMajor,
}

/// The manifest table that holds the changeset configuration.
#[derive(Debug, PartialEq, Eq, Structural, Clone, Copy, Hash)]
pub enum MetadataSection {
    /// `[workspace.metadata.changeset]`
    Workspace,
    /// `[package.metadata.changeset]`
    Package,
}

/// The format of a manifest that is not a Cargo manifest.
#[derive(Debug, PartialEq, Eq, Structural, Clone, Copy, Hash)]
pub enum ManifestFormat {
    Toml,
    Json,
    Yaml,
}

/// What a release does in git.
#[derive(Debug, Clone)]
pub struct GitConfig {
    pub commit: bool,
    pub tags: bool,
    pub keep_changesets: bool,
    pub tag_format: TagFormat,
    /// The commit title; `{new-version}` stands for the released versions.
    pub commit_title_template: String,
    /// Whether the commit body lists each package's version change.
    pub changes_in_body: bool,
}

/// How changelogs are written.
#[derive(Debug, Clone)]
pub struct ChangelogConfig {
    pub changelog: ChangelogLocation,
    pub comparison_links: ComparisonLinks,
    pub comparison_links_template: Option<String>,
}

/// The manifest of an additional package: its file, format and the path of
/// its version field.
#[derive(Debug, Clone, PartialEq, Eq)]
pub struct AdditionalPackageManifest {
    pub file_path: String,
    pub format: ManifestFormat,
    pub version_field_path: String,
}

/// A package outside Cargo that is versioned with the workspace.
#[derive(Debug, Clone, PartialEq, Eq)]
pub struct AdditionalPackageDeclaration {
    pub name: String,
    pub path: String,
    /// Glob patterns of files whose changes affect this package.
    pub influence: Vec<String>,
    pub manifest: AdditionalPackageManifest,
}

/// The configuration in the root manifest.
#[derive(Debug, Clone)]
pub struct RootChangesetConfig {
    /// The changeset directory, relative to the project root.
    pub changeset_dir: String,
    pub git_config: GitConfig,
    pub changelog_config: ChangelogConfig,
    pub zero_version_behavior: ZeroVersionBehavior,
    /// Changelog line for a package bumped only because a dependency was
    /// released; `{dependency}` and `{version}` are filled in.
    pub dependency_bump_changelog_template: String,
    pub none_bump_behavior: NoneBumpBehavior,
    pub none_bump_promote_message_template: Option<String>,
    pub additional_packages: Vec<AdditionalPackageDeclaration>,
    /// Glob patterns of files that never affect a package.
    pub ignored_files: Vec<String>,
    pub base_branch: String,
}

/// The default changeset directory.
pub open spec fn default_changeset_dir() -> Seq<char> {
    seq!['.', 'c', 'h', 'a', 'n', 'g', 'e', 's', 'e', 't']
}

/// The summary of the changeset that promotes `none` bumps to patches:
/// the configured text, or a fixed one.
pub open spec fn promote_message_spec(c: RootChangesetConfig) -> Seq<char> {
    match c.none_bump_promote_message_template {
        Some(t) => t@,
        None => "Internal changes"@,
    }
}

impl RootChangesetConfig {
    /// The summary given to a changeset of promoted `none` bumps.
    pub fn promote_message(&self) -> (r: &str)
        ensures
            r@ == promote_message_spec(*self),
    {
        match &self.none_bump_promote_message_template {
            Some(t) => t.as_str(),
            None => "Internal changes",
        }
    }
}

impl Default for RootChangesetConfig {
    /// Commits and tags, drops consumed changesets, writes one root changelog.
    fn default() -> (r: Self)
        ensures
            r.changeset_dir@ == default_changeset_dir(),
            r.git_config.commit,
            r.git_config.tags,
            !r.git_config.keep_changesets,
            r.git_config.tag_format == TagFormat::VersionOnly,
            r.git_config.changes_in_body,
            r.changelog_config.changelog == ChangelogLocation::Root,
            r.changelog_config.comparison_links == ComparisonLinks::Auto,
            r.zero_version_behavior == ZeroVersionBehavior::EffectiveMinor,
            r.none_bump_behavior == NoneBumpBehavior::Allow,
            r.none_bump_promote_message_template is None,
            r.additional_packages@.len() == 0,
            r.ignored_files@.len() == 0,
    {
        let dir = String::from_str(".changeset");
        proof {
            reveal_strlit(".changeset");
        }
        RootChangesetConfig {
            changeset_dir: dir,
            git_config: GitConfig {
                commit: true,
                tags: true,
                keep_changesets: false,
                tag_format: TagFormat::VersionOnly,
                commit_title_template: String::from_str("{new-version}"),
                changes_in_body: true,
            },
            changelog_config: ChangelogConfig {
                changelog: ChangelogLocation::Root,
                comparison_links: ComparisonLinks::Auto,
                comparison_links_template: None,
            },
            zero_version_behavior: ZeroVersionBehavior::EffectiveMinor,
            dependency_bump_changelog_template: String::from_str(
                "Updated dependency `{dependency}` to v{version}",
            ),
            none_bump_behavior: NoneBumpBehavior::Allow,
            none_bump_promote_message_template: None,
            additional_packages: Vec::new(),
            ignored_files: Vec::new(),
            base_branch: String::from_str("main"),
        }
    }
}

/// Per-package configuration from a package manifest.
#[derive(Debug, Clone)]
pub struct PackageChangesetConfig {
    /// Glob patterns of files in the package that never affect it.
    pub ignored_files: Vec<String>,
}

/// A field of an additional package that can be edited.
#[derive(Debug, PartialEq, Eq, Structural, Clone, Copy, Hash)]
pub enum AdditionalPackageField {
    Path,
    Influence,
    ManifestFilePath,
    ManifestFormat,
    ManifestVersionFieldPath,
}

/// New values for some fields of an additional package.
#[derive(Debug, Clone)]
pub struct AdditionalPackageUpdate {
    pub path: Option<String>,
    pub influence: Option<Vec<String>>,
    pub manifest_file_path: Option<String>,
    pub manifest_format: Option<ManifestFormat>,
    pub manifest_version_field_path: Option<String>,
}

/// The configuration that `init` writes; an absent field is left out.
#[derive(Debug, Clone)]
pub struct InitConfig {
    pub commit: Option<bool>,
    pub tags: Option<bool>,
    pub keep_changesets: Option<bool>,
    pub tag_format: Option<TagFormat>,
    pub changelog: Option<ChangelogLocation>,
    pub comparison_links: Option<ComparisonLinks>,
    pub zero_version_behavior: Option<ZeroVersionBehavior>,
    pub dependency_bump_changelog_template: Option<String>,
    pub base_branch: Option<String>,
    pub none_bump_behavior: Option<NoneBumpBehavior>,
    pub none_bump_promote_message_template: Option<String>,
    pub commit_title_template: Option<String>,
    pub changes_in_body: Option<bool>,
    pub comparison_links_template: Option<String>,
    pub ignored_files: Option<Vec<String>>,
}

/// The configuration with every field absent.
pub open spec fn empty_config() -> InitConfig {
    InitConfig {
        commit: None,
        tags: None,
        keep_changesets: None,
        tag_format: None,
        changelog: None,
        comparison_links: None,
        zero_version_behavior: None,
        dependency_bump_changelog_template: None,
        base_branch: None,
        none_bump_behavior: None,
        none_bump_promote_message_template: None,
        commit_title_template: None,
        changes_in_body: None,
        comparison_links_template: None,
        ignored_files: None,
    }
}

impl InitConfig {
    /// A configuration with every field absent.
    pub fn empty() -> (c: InitConfig)
        ensures
            c.is_empty_spec(),
            c == empty_config(),
    {
        InitConfig {
            commit: None,
            tags: None,
            keep_changesets: None,
            tag_format: None,
            changelog: None,
            comparison_links: None,
            zero_version_behavior: None,
            dependency_bump_changelog_template: None,
            base_branch: None,
            none_bump_behavior: None,
            none_bump_promote_message_template: None,
            commit_title_template: None,
            changes_in_body: None,
            comparison_links_template: None,
            ignored_files: None,
        }
    }

    /// Every field is absent.
    pub open spec fn is_empty_spec(&self) -> bool {
        &&& self.commit is None
        &&& self.tags is None
        &&& self.keep_changesets is None
        &&& self.tag_format is None
        &&& self.changelog is None
        &&& self.comparison_links is None
        &&& self.zero_version_behavior is None
        &&& self.dependency_bump_changelog_template is None
        &&& self.base_branch is None
        &&& self.none_bump_behavior is None
        &&& self.none_bump_promote_message_template is None
        &&& self.commit_title_template is None
        &&& self.changes_in_body is None
        &&& self.comparison_links_template is None
        &&& self.ignored_files is None
    }

    /// Whether every field is absent.
    pub fn is_empty(&self) -> (r: bool)
        ensures
            r == self.is_empty_spec(),
    {
        self.commit.is_none() && self.tags.is_none() && self.keep_changesets.is_none()
            && self.tag_format.is_none() && self.changelog.is_none() && self.comparison_links.is_none()
            && self.zero_version_behavior.is_none() && self.dependency_bump_changelog_template.is_none()
            && self.base_branch.is_none() && self.none_bump_behavior.is_none()
            && self.none_bump_promote_message_template.is_none() && self.commit_title_template.is_none()
            && self.changes_in_body.is_none() && self.comparison_links_template.is_none()
            && self.ignored_files.is_none()
    }
}

/// Git settings chosen during `init`.
#[derive(Debug, Clone)]
pub struct GitSettingsInput {
    pub commit: bool,
    pub tags: bool,
    pub keep_changesets: bool,
    pub tag_format: TagFormat,
    pub base_branch: String,
    pub commit_title_template: Option<String>,
    pub changes_in_body: Option<bool>,
}

/// Changelog settings chosen during `init`.
#[derive(Debug, Clone)]
pub struct ChangelogSettingsInput {
    pub changelog: ChangelogLocation,
    pub comparison_links: ComparisonLinks,
    pub comparison_links_template: Option<String>,
    pub dependency_bump_changelog_template: Option<String>,
}

/// Version settings chosen during `init`.
#[derive(Debug, Clone)]
pub struct VersionSettingsInput {
    pub zero_version_behavior: Option<ZeroVersionBehavior>,
    pub none_bump_behavior: Option<NoneBumpBehavior>,
    pub none_bump_promote_message_template: Option<String>,
}

/// File filtering settings chosen during `init`.
#[derive(Debug, Clone)]
pub struct FilteringSettingsInput {
    pub ignored_files: Vec<String>,
}

impl Default for GitSettingsInput {
    /// The settings of a default configuration: commit and tag, drop the
    /// consumed changesets, version-only tags, base branch `main`.
    fn default() -> (r: Self)
        ensures
            r.commit,
            r.tags,
            !r.keep_changesets,
            r.tag_format == TagFormat::VersionOnly,
            r.base_branch@ == "main"@,
            r.commit_title_template is None,
            r.changes_in_body is None,
    {
        GitSettingsInput {
            commit: true,
            tags: true,
            keep_changesets: false,
            tag_format: TagFormat::VersionOnly,
            base_branch: String::from_str("main"),
            commit_title_template: None,
            changes_in_body: None,
        }
    }
}

impl Default for ChangelogSettingsInput {
    /// One root changelog with comparison links where the host is known.
    fn default() -> (r: Self)
        ensures
            r.changelog == ChangelogLocation::Root,
            r.comparison_links == ComparisonLinks::Auto,
            r.comparison_links_template is None,
            r.dependency_bump_changelog_template is None,
    {
        ChangelogSettingsInput {
            changelog: ChangelogLocation::Root,
            comparison_links: ComparisonLinks::Auto,
            comparison_links_template: None,
            dependency_bump_changelog_template: None,
        }
    }
}

impl Default for VersionSettingsInput {
    /// No version setting chosen.
    fn default() -> (r: Self)
        ensures
            r.zero_version_behavior is None,
            r.none_bump_behavior is None,
            r.none_bump_promote_message_template is None,
    {
        VersionSettingsInput { zero_version_behavior: None, none_bump_behavior: None, none_bump_promote_message_template: None }
    }
}

impl Default for FilteringSettingsInput {
    /// No file ignored.
    fn default() -> (r: Self)
        ensures
            r.ignored_files@.len() == 0,
    {
        FilteringSettingsInput { ignored_files: Vec::new() }
    }
}

/// What `init` knows of the project when it asks for settings.
#[derive(Debug, PartialEq, Eq, Structural, Clone, Copy)]
pub struct ProjectContext {
    pub is_single_package: bool,
}

} // verus!

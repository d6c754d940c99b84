//! Setting a project up for changesets: the changeset directory with its
//! `.gitkeep`, and the configuration written into the root manifest.
use vstd::prelude::*;

use crate::config::{
    empty_config, ChangelogLocation, ChangelogSettingsInput, ComparisonLinks, FilteringSettingsInput, GitSettingsInput, InitConfig,
    MetadataSection, ProjectContext, RootChangesetConfig, VersionSettingsInput, ZeroVersionBehavior,
};
use crate::error::Result;
use crate::model::{clone_opt_string, clone_strings, opt_view, CargoProject, NoneBumpBehavior, ProjectKind, TagFormat};
use crate::paths::{path_join, path_join_spec};
use crate::text::views;
use crate::traits::{InitInteractionProvider, ManifestMetadataWriter, ProjectProvider};
use crate::validator::BuilderError;

verus! {

/// What the caller asks of `init`: the defaults, or settings per group.
#[derive(Debug)]
pub struct InitInput {
    pub defaults: bool,
    pub git_config: Option<GitSettingsInput>,
    pub changelog_config: Option<ChangelogSettingsInput>,
    pub version_config: Option<VersionSettingsInput>,
    pub filtering_config: Option<FilteringSettingsInput>,
}

impl Default for InitInput {
    /// No defaults and no settings.
    fn default() -> (r: Self)
        ensures
            !r.defaults,
            r.git_config is None,
            r.changelog_config is None,
            r.version_config is None,
            r.filtering_config is None,
    {
        InitInput { defaults: false, git_config: None, changelog_config: None, version_config: None, filtering_config: None }
    }
}

impl InitInput {
    pub fn defaults(&self) -> (r: bool)
        ensures
            r == self.defaults,
    {
        self.defaults
    }

    pub fn git_config(&self) -> (r: Option<&GitSettingsInput>)
        ensures
            r == match &self.git_config {
                Some(g) => Some(g),
                None => None::<&GitSettingsInput>,
            },
    {
        match &self.git_config {
            Some(g) => Some(g),
            None => None,
        }
    }

    pub fn changelog_config(&self) -> (r: Option<&ChangelogSettingsInput>)
        ensures
            r == match &self.changelog_config {
                Some(c) => Some(c),
                None => None::<&ChangelogSettingsInput>,
            },
    {
        match &self.changelog_config {
            Some(c) => Some(c),
            None => None,
        }
    }

    pub fn version_config(&self) -> (r: Option<&VersionSettingsInput>)
        ensures
            r == match &self.version_config {
                Some(v) => Some(v),
                None => None::<&VersionSettingsInput>,
            },
    {
        match &self.version_config {
            Some(v) => Some(v),
            None => None,
        }
    }

    pub fn filtering_config(&self) -> (r: Option<&FilteringSettingsInput>)
        ensures
            r == match &self.filtering_config {
                Some(f) => Some(f),
                None => None::<&FilteringSettingsInput>,
            },
    {
        match &self.filtering_config {
            Some(f) => Some(f),
            None => None,
        }
    }
}

/// Builds an [`InitInput`]; unset fields take their defaults.
pub struct InitInputBuilder {
    input: InitInput,
}

impl InitInputBuilder {
    pub closed spec fn spec_input(&self) -> InitInput {
        self.input
    }

    pub fn default() -> (b: InitInputBuilder)
        ensures
            !b.spec_input().defaults,
            b.spec_input().git_config is None,
            b.spec_input().changelog_config is None,
            b.spec_input().version_config is None,
            b.spec_input().filtering_config is None,
    {
        InitInputBuilder { input: InitInput::default() }
    }

    pub fn defaults(self, value: bool) -> (b: InitInputBuilder)
        ensures
            b.spec_input() == (InitInput { defaults: value, ..self.spec_input() }),
    {
        InitInputBuilder { input: InitInput { defaults: value, ..self.input } }
    }

    pub fn git_config(self, value: Option<GitSettingsInput>) -> (b: InitInputBuilder)
        ensures
            b.spec_input() == (InitInput { git_config: value, ..self.spec_input() }),
    {
        InitInputBuilder { input: InitInput { git_config: value, ..self.input } }
    }

    pub fn changelog_config(self, value: Option<ChangelogSettingsInput>) -> (b: InitInputBuilder)
        ensures
            b.spec_input() == (InitInput { changelog_config: value, ..self.spec_input() }),
    {
        InitInputBuilder { input: InitInput { changelog_config: value, ..self.input } }
    }

    pub fn version_config(self, value: Option<VersionSettingsInput>) -> (b: InitInputBuilder)
        ensures
            b.spec_input() == (InitInput { version_config: value, ..self.spec_input() }),
    {
        InitInputBuilder { input: InitInput { version_config: value, ..self.input } }
    }

    pub fn filtering_config(self, value: Option<FilteringSettingsInput>) -> (b: InitInputBuilder)
        ensures
            b.spec_input() == (InitInput { filtering_config: value, ..self.spec_input() }),
    {
        InitInputBuilder { input: InitInput { filtering_config: value, ..self.input } }
    }

    /// The input; building cannot fail.
    pub fn build(self) -> (r: core::result::Result<InitInput, BuilderError>)
        ensures
            r matches Ok(i) && i == self.spec_input(),
    {
        Ok(self.input)
    }
}

/// What `init` will do: where the changeset directory is, what exists
/// already, and which configuration goes into which metadata section.
#[derive(Debug)]
pub struct InitPlan {
    pub changeset_dir: String,
    pub dir_exists: bool,
    pub gitkeep_exists: bool,
    pub metadata_section: MetadataSection,
    pub config: InitConfig,
}

impl InitPlan {
    pub fn new(
        changeset_dir: String,
        dir_exists: bool,
        gitkeep_exists: bool,
        metadata_section: MetadataSection,
        config: InitConfig,
    ) -> (r: Self)
        ensures
            r == (InitPlan { changeset_dir, dir_exists, gitkeep_exists, metadata_section, config }),
    {
        InitPlan { changeset_dir, dir_exists, gitkeep_exists, metadata_section, config }
    }

    pub fn changeset_dir(&self) -> (r: &String)
        ensures
            r == &self.changeset_dir,
    {
        &self.changeset_dir
    }

    pub fn dir_exists(&self) -> (r: bool)
        ensures
            r == self.dir_exists,
    {
        self.dir_exists
    }

    pub fn gitkeep_exists(&self) -> (r: bool)
        ensures
            r == self.gitkeep_exists,
    {
        self.gitkeep_exists
    }

    pub fn metadata_section(&self) -> (r: MetadataSection)
        ensures
            r == self.metadata_section,
    {
        self.metadata_section
    }

    pub fn config(&self) -> (r: &InitConfig)
        ensures
            r == &self.config,
    {
        &self.config
    }
}

/// What `init` did.
#[derive(Debug)]
pub struct InitOutput {
    pub changeset_dir: String,
    pub created_dir: bool,
    pub created_gitkeep: bool,
    pub wrote_config: bool,
    /// Where the configuration went, when it was written.
    pub config_location: Option<MetadataSection>,
}

impl InitOutput {
    pub fn changeset_dir(&self) -> (r: &String)
        ensures
            r == &self.changeset_dir,
    {
        &self.changeset_dir
    }

    pub fn created_dir(&self) -> (r: bool)
        ensures
            r == self.created_dir,
    {
        self.created_dir
    }

    pub fn created_gitkeep(&self) -> (r: bool)
        ensures
            r == self.created_gitkeep,
    {
        self.created_gitkeep
    }

    pub fn wrote_config(&self) -> (r: bool)
        ensures
            r == self.wrote_config,
    {
        self.wrote_config
    }

    pub fn config_location(&self) -> (r: Option<MetadataSection>)
        ensures
            r == self.config_location,
    {
        self.config_location
    }
}

/// The metadata section of a project's configuration: the workspace's in
/// workspaces, the package's otherwise.
pub open spec fn section_for(kind: ProjectKind) -> MetadataSection {
    match kind {
        ProjectKind::SinglePackage => MetadataSection::Package,
        _ => MetadataSection::Workspace,
    }
}

/// The configuration `init --defaults` writes: commits and tags, changeset
/// files dropped after release, version-only tags for a single package and
/// crate-prefixed tags for workspaces, one root changelog with automatic
/// comparison links.
pub open spec fn is_default_config(c: InitConfig, context: ProjectContext) -> bool {
    &&& c.commit == Some(true)
    &&& c.tags == Some(true)
    &&& c.keep_changesets == Some(false)
    &&& c.tag_format == Some(if context.is_single_package { TagFormat::VersionOnly } else { TagFormat::CratePrefixed })
    &&& c.changelog == Some(ChangelogLocation::Root)
    &&& c.comparison_links == Some(ComparisonLinks::Auto)
    &&& c.zero_version_behavior == Some(ZeroVersionBehavior::EffectiveMinor)
    &&& opt_view(c.dependency_bump_changelog_template) == Some("Updated dependency `{dependency}` to v{version}"@)
    &&& opt_view(c.base_branch) == Some("main"@)
    &&& c.none_bump_behavior == Some(NoneBumpBehavior::Allow)
    &&& c.none_bump_promote_message_template is None
    &&& opt_view(c.commit_title_template) == Some("{new-version}"@)
    &&& c.changes_in_body == Some(true)
    &&& c.comparison_links_template is None
    &&& c.ignored_files is None
}

/// The configuration written with `--defaults`.
pub fn build_default_config(context: ProjectContext) -> (r: InitConfig)
    ensures
        is_default_config(r, context),
{
    let tag_format = if context.is_single_package {
        TagFormat::VersionOnly
    } else {
        TagFormat::CratePrefixed
    };
    InitConfig {
        commit: Some(true),
        tags: Some(true),
        keep_changesets: Some(false),
        tag_format: Some(tag_format),
        changelog: Some(ChangelogLocation::Root),
        comparison_links: Some(ComparisonLinks::Auto),
        zero_version_behavior: Some(ZeroVersionBehavior::EffectiveMinor),
        dependency_bump_changelog_template: Some(String::from_str("Updated dependency `{dependency}` to v{version}")),
        base_branch: Some(String::from_str("main")),
        none_bump_behavior: Some(NoneBumpBehavior::Allow),
        none_bump_promote_message_template: None,
        commit_title_template: Some(String::from_str("{new-version}")),
        changes_in_body: Some(true),
        comparison_links_template: None,
        ignored_files: None,
    }
}

/// `after` is `before` with the given settings applied: each group that is
/// present sets its fields; an empty list of ignored files sets nothing.
pub open spec fn settings_applied(before: InitConfig, after: InitConfig, input: InitInput) -> bool {
    &&& match input.git_config {
        Some(g) => after.commit == Some(g.commit) && after.tags == Some(g.tags) && after.keep_changesets == Some(
            g.keep_changesets,
        ) && after.tag_format == Some(g.tag_format) && opt_view(after.base_branch) == Some(g.base_branch@) && opt_view(
            after.commit_title_template,
        ) == opt_view(g.commit_title_template) && after.changes_in_body == g.changes_in_body,
        None => after.commit == before.commit && after.tags == before.tags && after.keep_changesets == before.keep_changesets
            && after.tag_format == before.tag_format && opt_view(after.base_branch) == opt_view(before.base_branch)
            && opt_view(after.commit_title_template) == opt_view(before.commit_title_template) && after.changes_in_body
            == before.changes_in_body,
    }
    &&& match input.changelog_config {
        Some(c) => after.changelog == Some(c.changelog) && after.comparison_links == Some(c.comparison_links) && opt_view(
            after.comparison_links_template,
        ) == opt_view(c.comparison_links_template) && opt_view(after.dependency_bump_changelog_template) == opt_view(
            c.dependency_bump_changelog_template,
        ),
        None => after.changelog == before.changelog && after.comparison_links == before.comparison_links && opt_view(
            after.comparison_links_template,
        ) == opt_view(before.comparison_links_template) && opt_view(after.dependency_bump_changelog_template) == opt_view(
            before.dependency_bump_changelog_template,
        ),
    }
    &&& match input.version_config {
        Some(v) => after.zero_version_behavior == v.zero_version_behavior && after.none_bump_behavior == v.none_bump_behavior
            && opt_view(after.none_bump_promote_message_template) == opt_view(v.none_bump_promote_message_template),
        None => after.zero_version_behavior == before.zero_version_behavior && after.none_bump_behavior
            == before.none_bump_behavior && opt_view(after.none_bump_promote_message_template) == opt_view(
            before.none_bump_promote_message_template,
        ),
    }
    &&& match input.filtering_config {
        Some(f) => if f.ignored_files@.len() > 0 {
            after.ignored_files matches Some(v) && views(v@) == views(f.ignored_files@)
        } else {
            ignored_unchanged(before, after)
        },
        None => ignored_unchanged(before, after),
    }
}

/// The ignored files are as they were.
pub open spec fn ignored_unchanged(before: InitConfig, after: InitConfig) -> bool {
    match before.ignored_files {
        Some(b) => after.ignored_files matches Some(a) && views(a@) == views(b@),
        None => after.ignored_files is None,
    }
}

/// Applies the settings groups that the input holds.
pub fn apply_settings_to_config(config: &mut InitConfig, input: &InitInput)
    ensures
        settings_applied(*old(config), *final(config), *input),
{
    match &input.git_config {
        Some(git) => {
            config.commit = Some(git.commit);
            config.tags = Some(git.tags);
            config.keep_changesets = Some(git.keep_changesets);
            config.tag_format = Some(git.tag_format);
            config.base_branch = Some(git.base_branch.clone());
            config.commit_title_template = clone_opt_string(&git.commit_title_template);
            config.changes_in_body = git.changes_in_body;
        },
        None => {},
    }
    match &input.changelog_config {
        Some(changelog) => {
            config.changelog = Some(changelog.changelog);
            config.comparison_links = Some(changelog.comparison_links);
            config.comparison_links_template = clone_opt_string(&changelog.comparison_links_template);
            config.dependency_bump_changelog_template = clone_opt_string(&changelog.dependency_bump_changelog_template);
        },
        None => {},
    }
    match &input.version_config {
        Some(version) => {
            config.zero_version_behavior = version.zero_version_behavior;
            config.none_bump_behavior = version.none_bump_behavior;
            config.none_bump_promote_message_template = clone_opt_string(&version.none_bump_promote_message_template);
        },
        None => {},
    }
    match &input.filtering_config {
        Some(filtering) => {
            if filtering.ignored_files.len() > 0 {
                config.ignored_files = Some(clone_strings(&filtering.ignored_files));
            }
        },
        None => {},
    }
}

/// The configuration an input asks for: the defaults with `--defaults`,
/// otherwise the given settings on an empty configuration.
pub fn build_config_from_input(input: &InitInput, context: ProjectContext) -> (r: InitConfig)
    ensures
        input.defaults ==> is_default_config(r, context),
        !input.defaults ==> settings_applied(empty_config(), r, *input),
{
    if input.defaults {
        return build_default_config(context);
    }
    let mut config = InitConfig::empty();
    apply_settings_to_config(&mut config, input);
    config
}

/// The plan of `init` for a project: its changeset directory, whether it
/// and its `.gitkeep` exist, and where the configuration goes.
pub fn build_init_plan<P: ProjectProvider>(
    provider: &P,
    project: &CargoProject,
    root_config: &RootChangesetConfig,
    config: InitConfig,
) -> (r: InitPlan)
    ensures
        r.changeset_dir@ == path_join_spec(project.root@, root_config.changeset_dir@),
        r.metadata_section == section_for(project.kind),
        r.config == config,
{
    let full_changeset_dir = path_join(project.root.as_str(), root_config.changeset_dir.as_str());
    let dir_exists = provider.path_exists(full_changeset_dir.as_str());
    let gitkeep = path_join(full_changeset_dir.as_str(), ".gitkeep");
    let gitkeep_exists = provider.path_exists(gitkeep.as_str());
    let metadata_section = match project.kind {
        ProjectKind::SinglePackage => MetadataSection::Package,
        _ => MetadataSection::Workspace,
    };
    InitPlan::new(full_changeset_dir, dir_exists, gitkeep_exists, metadata_section, config)
}

/// Sets a project up for changesets; a manifest writer writes the
/// configuration, an interaction provider asks for it.
pub struct InitOperation<P, M, I> {
    project_provider: P,
    manifest_writer: Option<M>,
    interaction_provider: Option<I>,
}

impl<P: ProjectProvider> InitOperation<P, (), ()> {
    /// An operation that creates the directory only.
    pub fn new(project_provider: P) -> (r: Self)
        ensures
            r.has_writer() == false,
            r.has_interaction() == false,
    {
        InitOperation { project_provider, manifest_writer: None, interaction_provider: None }
    }

    /// The plan of a setup without configuration.
    pub fn prepare_simple(&self, start_path: &str) -> (r: Result<InitPlan>)
        ensures
            r matches Ok(p) ==> p.config.is_empty_spec(),
    {
        let project = self.project_provider.discover_project(start_path)?;
        let (root_config, _) = self.project_provider.load_configs(&project)?;
        Ok(build_init_plan(&self.project_provider, &project, &root_config, InitConfig::empty()))
    }

    /// Creates the changeset directory and its `.gitkeep`, as planned.
    pub fn execute_simple_plan(&self, start_path: &str, plan: &InitPlan) -> (r: Result<InitOutput>)
        ensures
            r matches Ok(o) ==> o.created_dir == !plan.dir_exists && o.created_gitkeep == !plan.gitkeep_exists
                && !o.wrote_config && o.config_location is None,
    {
        let project = self.project_provider.discover_project(start_path)?;
        let (root_config, _) = self.project_provider.load_configs(&project)?;
        let changeset_dir = self.project_provider.ensure_changeset_dir(&project, &root_config)?;
        if !plan.gitkeep_exists {
            let gitkeep_path = path_join(changeset_dir.as_str(), ".gitkeep");
            self.project_provider.write_file(gitkeep_path.as_str(), "")?;
        }
        Ok(
            InitOutput {
                changeset_dir,
                created_dir: !plan.dir_exists,
                created_gitkeep: !plan.gitkeep_exists,
                wrote_config: false,
                config_location: None,
            },
        )
    }

    /// Plans and creates the changeset directory.
    pub fn execute_simple(&self, start_path: &str) -> (r: Result<InitOutput>)
        ensures
            r matches Ok(o) ==> !o.wrote_config && o.config_location is None,
    {
        let plan = self.prepare_simple(start_path)?;
        self.execute_simple_plan(start_path, &plan)
    }
}

impl<P: ProjectProvider, M, I> InitOperation<P, M, I> {
    pub closed spec fn has_writer(&self) -> bool {
        self.manifest_writer is Some
    }

    pub closed spec fn has_interaction(&self) -> bool {
        self.interaction_provider is Some
    }

    /// The project provider, the manifest writer and the interaction
    /// provider the operation works with.
    pub closed spec fn services(&self) -> (P, Option<M>, Option<I>) {
        (self.project_provider, self.manifest_writer, self.interaction_provider)
    }

    /// The operation with a manifest writer.
    pub fn with_manifest_writer<M2>(self, writer: M2) -> (r: InitOperation<P, M2, I>)
        ensures
            r.has_writer(),
            r.has_interaction() == self.has_interaction(),
            r.services() == (self.services().0, Some(writer), self.services().2),
    {
        InitOperation {
            project_provider: self.project_provider,
            manifest_writer: Some(writer),
            interaction_provider: self.interaction_provider,
        }
    }

    /// The operation with an interaction provider.
    pub fn with_interaction_provider<I2>(self, provider: I2) -> (r: InitOperation<P, M, I2>)
        ensures
            r.has_interaction(),
            r.has_writer() == self.has_writer(),
            r.services() == (self.services().0, self.services().1, Some(provider)),
    {
        InitOperation {
            project_provider: self.project_provider,
            manifest_writer: self.manifest_writer,
            interaction_provider: Some(provider),
        }
    }
}

impl<P: ProjectProvider, M: ManifestMetadataWriter, I: InitInteractionProvider> InitOperation<P, M, I> {
    /// Plans the setup with the configuration the input asks for.
    pub fn prepare(&self, start_path: &str, input: &InitInput) -> (r: Result<InitPlan>)
        ensures
            r matches Ok(p) ==> (input.defaults ==> is_default_config(
                p.config,
                ProjectContext { is_single_package: p.metadata_section == MetadataSection::Package },
            )),
    {
        let project = self.project_provider.discover_project(start_path)?;
        let (root_config, _) = self.project_provider.load_configs(&project)?;
        let context = ProjectContext {
            is_single_package: match project.kind {
                ProjectKind::SinglePackage => true,
                _ => false,
            },
        };
        let config = self.build_config(input, context)?;
        Ok(build_init_plan(&self.project_provider, &project, &root_config, config))
    }

    /// Creates the changeset directory and its `.gitkeep`, and writes the
    /// configuration when there is a writer and the configuration is not empty.
    pub fn execute_plan(&self, start_path: &str, plan: &InitPlan) -> (r: Result<InitOutput>)
        ensures
            r matches Ok(o) ==> o.created_dir == !plan.dir_exists && o.created_gitkeep == !plan.gitkeep_exists
                && o.wrote_config == (self.has_writer() && !plan.config.is_empty_spec()) && o.config_location == (if o.wrote_config {
                Some(plan.metadata_section)
            } else {
                None
            }),
    {
        let project = self.project_provider.discover_project(start_path)?;
        let (root_config, _) = self.project_provider.load_configs(&project)?;
        let changeset_dir = self.project_provider.ensure_changeset_dir(&project, &root_config)?;
        if !plan.gitkeep_exists {
            let gitkeep_path = path_join(changeset_dir.as_str(), ".gitkeep");
            self.project_provider.write_file(gitkeep_path.as_str(), "")?;
        }
        let wrote_config = match &self.manifest_writer {
            Some(writer) => {
                if plan.config.is_empty() {
                    false
                } else {
                    let manifest_path = path_join(project.root.as_str(), "Cargo.toml");
                    writer.write_metadata(manifest_path.as_str(), plan.metadata_section, &plan.config)?;
                    true
                }
            },
            None => false,
        };
        Ok(
            InitOutput {
                changeset_dir,
                created_dir: !plan.dir_exists,
                created_gitkeep: !plan.gitkeep_exists,
                wrote_config,
                config_location: if wrote_config {
                    Some(plan.metadata_section)
                } else {
                    None
                },
            },
        )
    }

    /// Plans the setup and carries it out.
    pub fn execute(&self, start_path: &str, input: &InitInput) -> (r: Result<InitOutput>)
        ensures
            r matches Ok(o) ==> (o.wrote_config ==> self.has_writer()) && (o.config_location is Some <==> o.wrote_config),
    {
        let plan = self.prepare(start_path, input)?;
        self.execute_plan(start_path, &plan)
    }

    /// The configuration from the input; when it is empty and there is an
    /// interaction provider, the settings the user gives.
    fn build_config(&self, input: &InitInput, context: ProjectContext) -> (r: Result<InitConfig>)
        ensures
            input.defaults ==> (r matches Ok(c) && is_default_config(c, context)),
            !input.defaults && input_sets_something(*input) ==> (r matches Ok(c) && settings_applied(empty_config(), c, *input)),
            !input.defaults && !input_sets_something(*input) && !self.has_interaction() ==> (r matches Ok(c) && c.is_empty_spec()),
    {
        let mut config = build_config_from_input(input, context);
        if config.is_empty() {
            match &self.interaction_provider {
                Some(provider) => {
                    let git_config = provider.configure_git_settings(context)?;
                    let changelog_config = provider.configure_changelog_settings(context)?;
                    let version_config = provider.configure_version_settings()?;
                    let filtering_config = provider.configure_filtering_settings()?;
                    let interactive_input = InitInput {
                        defaults: false,
                        git_config,
                        changelog_config,
                        version_config,
                        filtering_config,
                    };
                    apply_settings_to_config(&mut config, &interactive_input);
                },
                None => {},
            }
        }
        Ok(config)
    }
}

/// The input sets some field of the configuration.
pub open spec fn input_sets_something(input: InitInput) -> bool {
    ||| input.git_config is Some
    ||| input.changelog_config is Some
    ||| (input.version_config matches Some(v) && (v.zero_version_behavior is Some || v.none_bump_behavior is Some
        || v.none_bump_promote_message_template is Some))
    ||| (input.filtering_config matches Some(f) && f.ignored_files@.len() > 0)
}

} // verus!

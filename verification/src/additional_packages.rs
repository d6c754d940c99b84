//! Packages outside Cargo that are versioned with a workspace: adding,
//! removing, editing and listing their declarations in the root manifest.
use vstd::prelude::*;

use crate::config::{
    AdditionalPackageDeclaration, AdditionalPackageField, AdditionalPackageManifest, AdditionalPackageUpdate,
    ManifestFormat, MetadataSection, RootChangesetConfig,
};
use crate::error::{OperationError, Result};
use crate::model::{package_names, CargoProject, ProjectKind};
use crate::paths::{glob_build, glob_valid_spec, path_join, path_join_spec};
use crate::text::{join_seqs, join_strings, owned, push_string, views};
use crate::traits::{AdditionalPackageConfigWriter, AdditionalPackageInteractionProvider, MenuSelection, ProjectProvider};

verus! {

/// The declaration of a new additional package.
pub struct AdditionalPackageAddInput {
    pub name: String,
    pub path: String,
    /// Glob patterns of files whose changes affect the package.
    pub influence: Vec<String>,
    pub manifest_file_path: String,
    pub manifest_format: ManifestFormat,
    pub manifest_version_field_path: String,
}

/// New values for fields of an existing additional package.
pub struct AdditionalPackageEditInput {
    pub name: String,
    pub updates: AdditionalPackageUpdate,
}

/// What an additional-package operation did.
#[derive(Debug, Clone, PartialEq, Eq)]
pub enum AdditionalPackageEvent {
    Added { name: String },
    Removed { name: String },
    /// `field` lists the changed fields, separated by `, `.
    Updated { name: String, field: String },
    Listed(Vec<AdditionalPackageSummaryData>),
    NotFound { name: String },
    AlreadyExists { name: String },
    NoAdditionalPackages,
}

/// One line of the list of additional packages.
#[derive(Debug, Clone, PartialEq, Eq)]
pub struct AdditionalPackageSummaryData {
    pub name: String,
    pub path: String,
    pub manifest_file_path: String,
    pub manifest_format: ManifestFormat,
}

/// Some declaration has this name.
pub open spec fn declared(decls: Seq<AdditionalPackageDeclaration>, name: Seq<char>) -> bool {
    exists|i: int| 0 <= i < decls.len() && (#[trigger] decls[i]).name@ == name
}

/// Whether some declaration has this name.
pub fn is_declared(decls: &Vec<AdditionalPackageDeclaration>, name: &str) -> (r: bool)
    ensures
        r == declared(decls@, name@),
{
    let mut i: usize = 0;
    while i < decls.len()
        invariant
            i <= decls.len(),
            forall|k: int| 0 <= k < i ==> (#[trigger] decls@[k]).name@ != name@,
        decreases decls.len() - i,
    {
        if crate::text::str_eq(decls[i].name.as_str(), name) {
            return true;
        }
        i = i + 1;
    }
    false
}

/// Additional packages are declared only in workspaces.
pub fn require_workspace(project: &CargoProject) -> (r: Result<()>)
    ensures
        r is Ok <==> project.kind != ProjectKind::SinglePackage,
        r matches Err(e) ==> e is AdditionalPackagesRequireWorkspace,
{
    match project.kind {
        ProjectKind::SinglePackage => Err(OperationError::AdditionalPackagesRequireWorkspace),
        _ => Ok(()),
    }
}

/// The root manifest and its workspace metadata section.
pub fn resolve_manifest_and_section(project: &CargoProject) -> (r: (String, MetadataSection))
    requires
        project.kind != ProjectKind::SinglePackage,
    ensures
        r.0@ == path_join_spec(project.root@, "Cargo.toml"@),
        r.1 == MetadataSection::Workspace,
{
    (path_join(project.root.as_str(), "Cargo.toml"), MetadataSection::Workspace)
}

/// Accepts the patterns when each is a valid glob; the first invalid one
/// fails with `AdditionalPackageInvalidGlob`.
pub fn validate_influence_patterns(name: &str, patterns: &Vec<String>) -> (r: Result<()>)
    ensures
        r is Ok <==> forall|i: int| 0 <= i < patterns@.len() ==> glob_valid_spec(#[trigger] patterns@[i]@),
        r matches Err(e) ==> e matches OperationError::AdditionalPackageInvalidGlob { name: n, pattern: p, .. } && n@ == name@
            && exists|i: int|
            0 <= i < patterns@.len() && p@ == patterns@[i]@ && !glob_valid_spec(p@) && forall|j: int|
                0 <= j < i ==> glob_valid_spec(#[trigger] patterns@[j]@),
{
    let mut i: usize = 0;
    while i < patterns.len()
        invariant
            i <= patterns.len(),
            forall|j: int| 0 <= j < i ==> glob_valid_spec(#[trigger] patterns@[j]@),
        decreases patterns.len() - i,
    {
        match glob_build(patterns[i].as_str()) {
            Ok(()) => {},
            Err(source) => {
                return Err(
                    OperationError::AdditionalPackageInvalidGlob { name: owned(name), pattern: patterns[i].clone(), source },
                );
            },
        }
        i = i + 1;
    }
    Ok(())
}

/// The name of an editable field, as the manifest spells it.
pub open spec fn field_label(f: AdditionalPackageField) -> Seq<char> {
    match f {
        AdditionalPackageField::Path => "path"@,
        AdditionalPackageField::Influence => "influence"@,
        AdditionalPackageField::ManifestFilePath => "manifest.file-path"@,
        AdditionalPackageField::ManifestFormat => "manifest.format"@,
        AdditionalPackageField::ManifestVersionFieldPath => "manifest.version-field-path"@,
    }
}

fn field_label_text(f: AdditionalPackageField) -> (r: &'static str)
    ensures
        r@ == field_label(f),
{
    match f {
        AdditionalPackageField::Path => "path",
        AdditionalPackageField::Influence => "influence",
        AdditionalPackageField::ManifestFilePath => "manifest.file-path",
        AdditionalPackageField::ManifestFormat => "manifest.format",
        AdditionalPackageField::ManifestVersionFieldPath => "manifest.version-field-path",
    }
}

/// The fields an update sets, in declaration order.
pub open spec fn updated_fields(u: AdditionalPackageUpdate) -> Seq<Seq<char>> {
    (if u.path is Some {
        seq![field_label(AdditionalPackageField::Path)]
    } else {
        Seq::empty()
    }) + (if u.influence is Some {
        seq![field_label(AdditionalPackageField::Influence)]
    } else {
        Seq::empty()
    }) + (if u.manifest_file_path is Some {
        seq![field_label(AdditionalPackageField::ManifestFilePath)]
    } else {
        Seq::empty()
    }) + (if u.manifest_format is Some {
        seq![field_label(AdditionalPackageField::ManifestFormat)]
    } else {
        Seq::empty()
    }) + (if u.manifest_version_field_path is Some {
        seq![field_label(AdditionalPackageField::ManifestVersionFieldPath)]
    } else {
        Seq::empty()
    })
}

/// The description of an update: its fields separated by `, `, or `none`.
pub open spec fn describe_spec(u: AdditionalPackageUpdate) -> Seq<char> {
    if updated_fields(u).len() == 0 {
        "none"@
    } else {
        join_seqs(updated_fields(u), ", "@)
    }
}

/// Names the fields an update sets.
pub fn describe_updated_fields(updates: &AdditionalPackageUpdate) -> (r: String)
    ensures
        r@ == describe_spec(*updates),
{
    let mut fields: Vec<String> = Vec::new();
    if updates.path.is_some() {
        push_string(&mut fields, owned(field_label_text(AdditionalPackageField::Path)));
    }
    let ghost a = views(fields@);
    if updates.influence.is_some() {
        push_string(&mut fields, owned(field_label_text(AdditionalPackageField::Influence)));
    }
    let ghost b = views(fields@);
    if updates.manifest_file_path.is_some() {
        push_string(&mut fields, owned(field_label_text(AdditionalPackageField::ManifestFilePath)));
    }
    let ghost c = views(fields@);
    if updates.manifest_format.is_some() {
        push_string(&mut fields, owned(field_label_text(AdditionalPackageField::ManifestFormat)));
    }
    let ghost d = views(fields@);
    if updates.manifest_version_field_path.is_some() {
        push_string(&mut fields, owned(field_label_text(AdditionalPackageField::ManifestVersionFieldPath)));
    }
    proof {
        assert(views(fields@) =~= updated_fields(*updates));
    }
    if fields.len() == 0 {
        String::from_str("none")
    } else {
        join_strings(&fields, ", ")
    }
}

/// Some package of the project has this name.
pub open spec fn names_project_package(project: CargoProject, name: Seq<char>) -> bool {
    package_names(project.packages@).contains(name)
}

/// Declares a new additional package in the root manifest: its name must
/// be new among the declarations and the project's packages, its manifest
/// must exist and its influence patterns must be valid globs.
pub fn write_additional_package<P: ProjectProvider, W: AdditionalPackageConfigWriter>(
    provider: &P,
    writer: &W,
    project: &CargoProject,
    root_config: &RootChangesetConfig,
    input: AdditionalPackageAddInput,
) -> (r: Result<Vec<AdditionalPackageEvent>>)
    requires
        project.kind != ProjectKind::SinglePackage,
    ensures
        (declared(root_config.additional_packages@, input.name@) || names_project_package(*project, input.name@)) ==> (r matches Err(
            OperationError::AdditionalPackageAlreadyExists { name },
        ) && name@ == input.name@),
        r matches Ok(ev) ==> ev@.len() == 1 && (ev@[0] matches AdditionalPackageEvent::Added { name } && name@ == input.name@)
            && !declared(root_config.additional_packages@, input.name@) && !names_project_package(*project, input.name@)
            && forall|i: int| 0 <= i < input.influence@.len() ==> glob_valid_spec(#[trigger] input.influence@[i]@),
{
    if is_declared(&root_config.additional_packages, input.name.as_str()) {
        return Err(OperationError::AdditionalPackageAlreadyExists { name: input.name });
    }
    if crate::model::find_package(&project.packages, input.name.as_str()).is_some() {
        return Err(OperationError::AdditionalPackageAlreadyExists { name: input.name });
    }
    if !provider.path_exists(input.manifest_file_path.as_str()) {
        return Err(OperationError::AdditionalPackageManifestNotFound { name: input.name, path: input.manifest_file_path });
    }
    validate_influence_patterns(input.name.as_str(), &input.influence)?;
    let name = input.name.clone();
    let declaration = AdditionalPackageDeclaration {
        name: input.name,
        path: input.path,
        influence: input.influence,
        manifest: AdditionalPackageManifest {
            file_path: input.manifest_file_path,
            format: input.manifest_format,
            version_field_path: input.manifest_version_field_path,
        },
    };
    let (manifest_path, section) = resolve_manifest_and_section(project);
    writer.add_additional_package(manifest_path.as_str(), section, &declaration)?;
    let mut events: Vec<AdditionalPackageEvent> = Vec::new();
    events.push(AdditionalPackageEvent::Added { name });
    Ok(events)
}

/// The list of declared packages: their summaries, or that there is none.
pub fn summarize(decls: &Vec<AdditionalPackageDeclaration>) -> (r: Vec<AdditionalPackageEvent>)
    ensures
        r@.len() == 1,
        decls@.len() == 0 ==> r@[0] is NoAdditionalPackages,
        decls@.len() > 0 ==> (r@[0] matches AdditionalPackageEvent::Listed(s) && s@.len() == decls@.len() && forall|i: int|
            0 <= i < s@.len() ==> (#[trigger] s@[i]).name@ == decls@[i].name@ && s@[i].path@ == decls@[i].path@
                && s@[i].manifest_file_path@ == decls@[i].manifest.file_path@ && s@[i].manifest_format
                == decls@[i].manifest.format),
{
    let mut events: Vec<AdditionalPackageEvent> = Vec::new();
    if decls.len() == 0 {
        events.push(AdditionalPackageEvent::NoAdditionalPackages);
        return events;
    }
    let mut summaries: Vec<AdditionalPackageSummaryData> = Vec::new();
    let mut i: usize = 0;
    while i < decls.len()
        invariant
            i <= decls.len(),
            summaries@.len() == i,
            forall|k: int|
                0 <= k < i ==> (#[trigger] summaries@[k]).name@ == decls@[k].name@ && summaries@[k].path@ == decls@[k].path@
                    && summaries@[k].manifest_file_path@ == decls@[k].manifest.file_path@ && summaries@[k].manifest_format
                    == decls@[k].manifest.format,
        decreases decls.len() - i,
    {
        let d = &decls[i];
        let ghost before = summaries@;
        summaries.push(
            AdditionalPackageSummaryData {
                name: d.name.clone(),
                path: d.path.clone(),
                manifest_file_path: d.manifest.file_path.clone(),
                manifest_format: d.manifest.format,
            },
        );
        proof {
            assert forall|k: int|
                0 <= k < i + 1 implies (#[trigger] summaries@[k]).name@ == decls@[k].name@ && summaries@[k].path@
                    == decls@[k].path@ && summaries@[k].manifest_file_path@ == decls@[k].manifest.file_path@
                    && summaries@[k].manifest_format == decls@[k].manifest.format by {
                if k < i {
                    assert(summaries@[k] == before[k]);
                }
            }
        }
        i = i + 1;
    }
    events.push(AdditionalPackageEvent::Listed(summaries));
    events
}

/// The additional packages of a workspace; a single package has none.
pub fn discover_additional_packages_if_workspace<P: ProjectProvider>(
    provider: &P,
    project: &CargoProject,
    root_config: &RootChangesetConfig,
) -> (r: Result<Vec<crate::model::PackageInfo>>)
    ensures
        project.kind == ProjectKind::SinglePackage ==> (r matches Ok(v) && v@.len() == 0),
{
    match project.kind {
        ProjectKind::SinglePackage => Ok(Vec::new()),
        _ => provider.discover_additional_packages(project.root.as_str(), root_config),
    }
}

/// Declares an additional package from the given input.
pub struct AdditionalPackageDirectAddOperation<P, W> {
    project_provider: P,
    writer: W,
}

impl<P: ProjectProvider, W: AdditionalPackageConfigWriter> AdditionalPackageDirectAddOperation<P, W> {
    pub closed spec fn parts(&self) -> (P, W) {
        (self.project_provider, self.writer)
    }

    pub fn new(project_provider: P, writer: W) -> (r: Self)
        ensures
            r.parts() == (project_provider, writer),
    {
        AdditionalPackageDirectAddOperation { project_provider, writer }
    }

    /// Adds the declaration; only workspaces take additional packages.
    pub fn execute(&self, start_path: &str, input: AdditionalPackageAddInput) -> (r: Result<Vec<AdditionalPackageEvent>>)
        ensures
            r matches Ok(ev) ==> ev@.len() == 1 && (ev@[0] matches AdditionalPackageEvent::Added { name } && name@ == input.name@)
                && forall|i: int| 0 <= i < input.influence@.len() ==> glob_valid_spec(#[trigger] input.influence@[i]@),
    {
        let project = self.project_provider.discover_project(start_path)?;
        require_workspace(&project)?;
        let (root_config, _) = self.project_provider.load_configs(&project)?;
        write_additional_package(&self.project_provider, &self.writer, &project, &root_config, input)
    }
}

/// Removes a declared additional package.
pub struct AdditionalPackageDirectRemoveOperation<P, W> {
    project_provider: P,
    writer: W,
}

impl<P: ProjectProvider, W: AdditionalPackageConfigWriter> AdditionalPackageDirectRemoveOperation<P, W> {
    pub closed spec fn parts(&self) -> (P, W) {
        (self.project_provider, self.writer)
    }

    pub fn new(project_provider: P, writer: W) -> (r: Self)
        ensures
            r.parts() == (project_provider, writer),
    {
        AdditionalPackageDirectRemoveOperation { project_provider, writer }
    }

    /// Removes the declaration of `name`; an undeclared name fails with
    /// `AdditionalPackageNotFound`.
    pub fn execute(&self, start_path: &str, name: &str) -> (r: Result<Vec<AdditionalPackageEvent>>)
        ensures
            r matches Ok(ev) ==> ev@.len() == 1 && (ev@[0] matches AdditionalPackageEvent::Removed { name: n } && n@ == name@),
            r is Ok ==> exists|decls: Seq<AdditionalPackageDeclaration>| #[trigger] declared(decls, name@),
    {
        let project = self.project_provider.discover_project(start_path)?;
        require_workspace(&project)?;
        let (root_config, _) = self.project_provider.load_configs(&project)?;
        if !is_declared(&root_config.additional_packages, name) {
            return Err(OperationError::AdditionalPackageNotFound { name: owned(name) });
        }
        let (manifest_path, section) = resolve_manifest_and_section(&project);
        self.writer.remove_additional_package(manifest_path.as_str(), section, name)?;
        let mut events: Vec<AdditionalPackageEvent> = Vec::new();
        events.push(AdditionalPackageEvent::Removed { name: owned(name) });
        Ok(events)
    }
}

/// Changes fields of a declared additional package.
pub struct AdditionalPackageDirectEditOperation<P, W> {
    project_provider: P,
    writer: W,
}

impl<P: ProjectProvider, W: AdditionalPackageConfigWriter> AdditionalPackageDirectEditOperation<P, W> {
    pub closed spec fn parts(&self) -> (P, W) {
        (self.project_provider, self.writer)
    }

    pub fn new(project_provider: P, writer: W) -> (r: Self)
        ensures
            r.parts() == (project_provider, writer),
    {
        AdditionalPackageDirectEditOperation { project_provider, writer }
    }

    /// Applies the update; the package must be declared, new influence
    /// patterns must be valid globs and a new manifest must exist.
    pub fn execute(&self, start_path: &str, input: AdditionalPackageEditInput) -> (r: Result<Vec<AdditionalPackageEvent>>)
        ensures
            r matches Ok(ev) ==> ev@.len() == 1 && (ev@[0] matches AdditionalPackageEvent::Updated { name, field }
                && name@ == input.name@ && field@ == describe_spec(input.updates)) && (input.updates.influence matches Some(
                pats,
            ) ==> forall|i: int| 0 <= i < pats@.len() ==> glob_valid_spec(#[trigger] pats@[i]@)),
            r is Ok ==> exists|decls: Seq<AdditionalPackageDeclaration>| #[trigger] declared(decls, input.name@),
    {
        let project = self.project_provider.discover_project(start_path)?;
        require_workspace(&project)?;
        let (root_config, _) = self.project_provider.load_configs(&project)?;
        if !is_declared(&root_config.additional_packages, input.name.as_str()) {
            return Err(OperationError::AdditionalPackageNotFound { name: input.name });
        }
        match &input.updates.influence {
            Some(influence) => {
                validate_influence_patterns(input.name.as_str(), influence)?;
            },
            None => {},
        }
        match &input.updates.manifest_file_path {
            Some(manifest_path) => {
                if !self.project_provider.path_exists(manifest_path.as_str()) {
                    return Err(
                        OperationError::AdditionalPackageManifestNotFound { name: input.name, path: manifest_path.clone() },
                    );
                }
            },
            None => {},
        }
        let (manifest_path, section) = resolve_manifest_and_section(&project);
        let changed_fields = describe_updated_fields(&input.updates);
        self.writer.update_additional_package(manifest_path.as_str(), section, input.name.as_str(), &input.updates)?;
        let mut events: Vec<AdditionalPackageEvent> = Vec::new();
        events.push(AdditionalPackageEvent::Updated { name: input.name, field: changed_fields });
        Ok(events)
    }
}

/// Lists the declared additional packages.
pub struct AdditionalPackageListOperation<P> {
    project_provider: P,
}

impl<P: ProjectProvider> AdditionalPackageListOperation<P> {
    pub closed spec fn provider(&self) -> P {
        self.project_provider
    }

    pub fn new(project_provider: P) -> (r: Self)
        ensures
            r.provider() == project_provider,
    {
        AdditionalPackageListOperation { project_provider }
    }

    /// The summaries of the declarations, or that there is none.
    pub fn execute(&self, start_path: &str) -> (r: Result<Vec<AdditionalPackageEvent>>)
        ensures
            r matches Ok(ev) ==> ev@.len() == 1 && (ev@[0] is NoAdditionalPackages || (ev@[0] matches AdditionalPackageEvent::Listed(
                s,
            ) && s@.len() > 0)),
    {
        let project = self.project_provider.discover_project(start_path)?;
        require_workspace(&project)?;
        let (root_config, _) = self.project_provider.load_configs(&project)?;
        Ok(summarize(&root_config.additional_packages))
    }
}

/// Declares an additional package from the user's answers.
pub struct AdditionalPackageInteractiveAddOperation<P, W, I> {
    project_provider: P,
    writer: W,
    interaction: I,
}

impl<
    P: ProjectProvider,
    W: AdditionalPackageConfigWriter,
    I: AdditionalPackageInteractionProvider,
> AdditionalPackageInteractiveAddOperation<P, W, I> {
    pub closed spec fn parts(&self) -> (P, W, I) {
        (self.project_provider, self.writer, self.interaction)
    }

    pub fn new(project_provider: P, writer: W, interaction: I) -> (r: Self)
        ensures
            r.parts() == (project_provider, writer, interaction),
    {
        AdditionalPackageInteractiveAddOperation { project_provider, writer, interaction }
    }

    /// Asks for the name, directory, influence patterns and manifest of the
    /// package, then declares it as the direct add does.
    pub fn execute(&self, start_path: &str) -> (r: Result<Vec<AdditionalPackageEvent>>)
        ensures
            r matches Ok(ev) ==> ev@.len() == 1 && ev@[0] is Added,
    {
        let project = self.project_provider.discover_project(start_path)?;
        require_workspace(&project)?;
        let name = self.interaction.prompt_package_name()?;
        let path = self.interaction.prompt_package_path()?;
        let influence = self.interaction.prompt_influence_patterns(path.as_str())?;
        let manifest_file_path = self.interaction.prompt_manifest_file_path()?;
        let manifest_format = self.interaction.prompt_manifest_format()?;
        let manifest_version_field_path = self.interaction.prompt_manifest_version_field_path()?;
        let (root_config, _) = self.project_provider.load_configs(&project)?;
        write_additional_package(
            &self.project_provider,
            &self.writer,
            &project,
            &root_config,
            AdditionalPackageAddInput {
                name,
                path,
                influence,
                manifest_file_path,
                manifest_format,
                manifest_version_field_path,
            },
        )
    }
}

/// Removes the additional package the user picks, after confirmation.
pub struct AdditionalPackageInteractiveRemoveOperation<P, W, I> {
    project_provider: P,
    writer: W,
    interaction: I,
}

impl<
    P: ProjectProvider,
    W: AdditionalPackageConfigWriter,
    I: AdditionalPackageInteractionProvider,
> AdditionalPackageInteractiveRemoveOperation<P, W, I> {
    pub closed spec fn parts(&self) -> (P, W, I) {
        (self.project_provider, self.writer, self.interaction)
    }

    pub fn new(project_provider: P, writer: W, interaction: I) -> (r: Self)
        ensures
            r.parts() == (project_provider, writer, interaction),
    {
        AdditionalPackageInteractiveRemoveOperation { project_provider, writer, interaction }
    }

    /// Offers the declared packages; a cancelled choice, a choice outside
    /// the list or a refused confirmation changes nothing.
    pub fn execute(&self, start_path: &str) -> (r: Result<Vec<AdditionalPackageEvent>>)
        ensures
            r matches Ok(ev) ==> ev@.len() <= 1 && (ev@.len() == 1 ==> (ev@[0] is NoAdditionalPackages || ev@[0] is Removed)),
    {
        let project = self.project_provider.discover_project(start_path)?;
        require_workspace(&project)?;
        let (root_config, _) = self.project_provider.load_configs(&project)?;
        let packages = &root_config.additional_packages;
        let mut events: Vec<AdditionalPackageEvent> = Vec::new();
        if packages.len() == 0 {
            events.push(AdditionalPackageEvent::NoAdditionalPackages);
            return Ok(events);
        }
        let index = match self.interaction.select_package_to_remove(packages.as_slice())? {
            MenuSelection::Selected(i) => i,
            MenuSelection::Cancelled => {
                return Ok(events);
            },
        };
        if index >= packages.len() {
            return Ok(events);
        }
        let name = packages[index].name.clone();
        if !self.interaction.confirm_removal(name.as_str())? {
            return Ok(events);
        }
        let (manifest_path, section) = resolve_manifest_and_section(&project);
        self.writer.remove_additional_package(manifest_path.as_str(), section, name.as_str())?;
        events.push(AdditionalPackageEvent::Removed { name });
        Ok(events)
    }
}

/// An interactive edit in progress: the package being edited, its
/// directory before the edit, and the fields changed so far.
pub struct AdditionalPackageEditSession {
    pub project: CargoProject,
    pub name: String,
    pub original_path: String,
    pub updates: AdditionalPackageUpdate,
    pub changed_fields: Vec<String>,
}

/// How an interactive edit starts: with a session, or already finished.
pub enum AdditionalPackageEditStart {
    Editing(AdditionalPackageEditSession),
    Finished(Vec<AdditionalPackageEvent>),
}

/// The update with `field` set from an answer, and its label recorded.
pub open spec fn update_records(before: AdditionalPackageUpdate, after: AdditionalPackageUpdate, field: AdditionalPackageField) -> bool {
    match field {
        AdditionalPackageField::Path => after.path is Some && after.influence == before.influence
            && after.manifest_file_path == before.manifest_file_path && after.manifest_format == before.manifest_format
            && after.manifest_version_field_path == before.manifest_version_field_path,
        AdditionalPackageField::Influence => after.influence is Some && after.path == before.path
            && after.manifest_file_path == before.manifest_file_path && after.manifest_format == before.manifest_format
            && after.manifest_version_field_path == before.manifest_version_field_path,
        AdditionalPackageField::ManifestFilePath => after.manifest_file_path is Some && after.path == before.path
            && after.influence == before.influence && after.manifest_format == before.manifest_format
            && after.manifest_version_field_path == before.manifest_version_field_path,
        AdditionalPackageField::ManifestFormat => after.manifest_format is Some && after.path == before.path
            && after.influence == before.influence && after.manifest_file_path == before.manifest_file_path
            && after.manifest_version_field_path == before.manifest_version_field_path,
        AdditionalPackageField::ManifestVersionFieldPath => after.manifest_version_field_path is Some && after.path
            == before.path && after.influence == before.influence && after.manifest_file_path == before.manifest_file_path
            && after.manifest_format == before.manifest_format,
    }
}

/// Edits the additional package the user picks, one field at a time, as
/// long as the user picks fields; the caller drives the questions with
/// `step` and ends with `finish`.
pub struct AdditionalPackageInteractiveEditOperation<P, W, I> {
    project_provider: P,
    writer: W,
    interaction: I,
}

impl<
    P: ProjectProvider,
    W: AdditionalPackageConfigWriter,
    I: AdditionalPackageInteractionProvider,
> AdditionalPackageInteractiveEditOperation<P, W, I> {
    pub closed spec fn parts(&self) -> (P, W, I) {
        (self.project_provider, self.writer, self.interaction)
    }

    pub fn new(project_provider: P, writer: W, interaction: I) -> (r: Self)
        ensures
            r.parts() == (project_provider, writer, interaction),
    {
        AdditionalPackageInteractiveEditOperation { project_provider, writer, interaction }
    }

    /// Offers the declared packages and opens a session on the chosen one;
    /// without packages, or when the choice is cancelled or outside the
    /// list, the edit is finished at once.
    pub fn start(&self, start_path: &str) -> (r: Result<AdditionalPackageEditStart>)
        ensures
            r matches Ok(AdditionalPackageEditStart::Editing(s)) ==> s.project.kind != ProjectKind::SinglePackage
                && s.changed_fields@.len() == 0 && s.updates.path is None && s.updates.influence is None
                && s.updates.manifest_file_path is None && s.updates.manifest_format is None
                && s.updates.manifest_version_field_path is None,
            r matches Ok(AdditionalPackageEditStart::Finished(ev)) ==> ev@.len() <= 1 && (ev@.len() == 1 ==> ev@[0] is NoAdditionalPackages),
    {
        let project = self.project_provider.discover_project(start_path)?;
        require_workspace(&project)?;
        let (root_config, _) = self.project_provider.load_configs(&project)?;
        let packages = &root_config.additional_packages;
        let mut events: Vec<AdditionalPackageEvent> = Vec::new();
        if packages.len() == 0 {
            events.push(AdditionalPackageEvent::NoAdditionalPackages);
            return Ok(AdditionalPackageEditStart::Finished(events));
        }
        let index = match self.interaction.select_package_to_edit(packages.as_slice())? {
            MenuSelection::Selected(i) => i,
            MenuSelection::Cancelled => {
                return Ok(AdditionalPackageEditStart::Finished(events));
            },
        };
        if index >= packages.len() {
            return Ok(AdditionalPackageEditStart::Finished(events));
        }
        let name = packages[index].name.clone();
        let original_path = packages[index].path.clone();
        Ok(
            AdditionalPackageEditStart::Editing(
                AdditionalPackageEditSession {
                    project,
                    name,
                    original_path,
                    updates: AdditionalPackageUpdate {
                        path: None,
                        influence: None,
                        manifest_file_path: None,
                        manifest_format: None,
                        manifest_version_field_path: None,
                    },
                    changed_fields: Vec::new(),
                },
            ),
        )
    }

    /// Asks which field to edit next and asks for its value; `false` when
    /// the user is done, which leaves the session as it was. The influence
    /// patterns are asked for the directory as edited so far.
    pub fn step(&self, session: &mut AdditionalPackageEditSession) -> (r: Result<bool>)
        ensures
            final(session).project == old(session).project,
            final(session).name == old(session).name,
            final(session).original_path == old(session).original_path,
            r matches Ok(false) ==> final(session).updates == old(session).updates && final(session).changed_fields@
                == old(session).changed_fields@,
            r matches Ok(true) ==> exists|f: AdditionalPackageField|
                update_records(old(session).updates, final(session).updates, f) && views(final(session).changed_fields@)
                    == views(old(session).changed_fields@).push(#[trigger] field_label(f)),
            r is Err ==> final(session).updates == old(session).updates && final(session).changed_fields@
                == old(session).changed_fields@,
    {
        let field = match self.interaction.select_field_to_edit()? {
            MenuSelection::Selected(f) => f,
            MenuSelection::Cancelled => {
                return Ok(false);
            },
        };
        match field {
            AdditionalPackageField::Path => {
                let value = self.interaction.prompt_package_path()?;
                session.updates.path = Some(value);
            },
            AdditionalPackageField::Influence => {
                let value = match &session.updates.path {
                    Some(p) => self.interaction.prompt_influence_patterns(p.as_str())?,
                    None => self.interaction.prompt_influence_patterns(session.original_path.as_str())?,
                };
                session.updates.influence = Some(value);
            },
            AdditionalPackageField::ManifestFilePath => {
                let value = self.interaction.prompt_manifest_file_path()?;
                session.updates.manifest_file_path = Some(value);
            },
            AdditionalPackageField::ManifestFormat => {
                let value = self.interaction.prompt_manifest_format()?;
                session.updates.manifest_format = Some(value);
            },
            AdditionalPackageField::ManifestVersionFieldPath => {
                let value = self.interaction.prompt_manifest_version_field_path()?;
                session.updates.manifest_version_field_path = Some(value);
            },
        }
        push_string(&mut session.changed_fields, owned(field_label_text(field)));
        Ok(true)
    }

    /// Writes the edits, if any field changed, and reports the changed
    /// fields in the order they were edited.
    pub fn finish(&self, session: AdditionalPackageEditSession) -> (r: Result<Vec<AdditionalPackageEvent>>)
        requires
            session.project.kind != ProjectKind::SinglePackage,
        ensures
            session.changed_fields@.len() == 0 ==> (r matches Ok(ev) && ev@.len() == 0),
            r matches Ok(ev) ==> session.changed_fields@.len() > 0 ==> ev@.len() == 1 && (ev@[0] matches AdditionalPackageEvent::Updated {
                name,
                field,
            } && name@ == session.name@ && field@ == join_seqs(views(session.changed_fields@), ", "@)),
    {
        let mut events: Vec<AdditionalPackageEvent> = Vec::new();
        if session.changed_fields.len() == 0 {
            return Ok(events);
        }
        let (manifest_path, section) = resolve_manifest_and_section(&session.project);
        self.writer.update_additional_package(manifest_path.as_str(), section, session.name.as_str(), &session.updates)?;
        let field = join_strings(&session.changed_fields, ", ");
        events.push(AdditionalPackageEvent::Updated { name: session.name, field });
        Ok(events)
    }
}

} // verus!

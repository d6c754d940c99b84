use std::cell::RefCell;
use std::rc::Rc;

use changeset_operations::additional_packages::{
    AdditionalPackageAddInput, AdditionalPackageEditStart, AdditionalPackageDirectAddOperation, AdditionalPackageDirectEditOperation,
    AdditionalPackageDirectRemoveOperation, AdditionalPackageEditInput, AdditionalPackageEvent,
    AdditionalPackageInteractiveAddOperation, AdditionalPackageInteractiveEditOperation,
    AdditionalPackageInteractiveRemoveOperation, AdditionalPackageListOperation,
};
use changeset_operations::config::{
    AdditionalPackageDeclaration, AdditionalPackageField, AdditionalPackageManifest, AdditionalPackageUpdate, ManifestFormat,
    MetadataSection, PackageChangesetConfig, RootChangesetConfig,
};
use changeset_operations::error::{OperationError, Result};
use changeset_operations::model::{CargoProject, PackageInfo, ProjectKind};
use changeset_operations::traits::{
    AdditionalPackageConfigWriter, AdditionalPackageInteractionProvider, MenuSelection, ProjectProvider,
};
use changeset_operations::version::Version;

fn package(name: &str, version_text: &str, path: &str) -> PackageInfo {
    PackageInfo { name: name.to_string(), version: Version::parse(version_text).expect("valid version"), path: path.to_string() }
}

const MANIFEST_FILE: &str = "/tmp/charts/Chart.yaml";

struct MockProjectProvider {
    project: CargoProject,
    root_config: RootChangesetConfig,
    additional: Vec<PackageInfo>,
    existing_paths: Vec<String>,
}

impl MockProjectProvider {
    fn single_package(name: &str, version_text: &str) -> Self {
        let root = "/mock/project";
        MockProjectProvider {
            project: CargoProject::new(root.to_string(), ProjectKind::SinglePackage, vec![package(name, version_text, root)]),
            root_config: RootChangesetConfig::default(),
            additional: Vec::new(),
            existing_paths: vec![MANIFEST_FILE.to_string()],
        }
    }

    fn workspace(packages: Vec<(&str, &str)>) -> Self {
        let root = "/mock/workspace";
        let infos = packages.into_iter().map(|(n, v)| package(n, v, &format!("{root}/crates/{n}"))).collect();
        MockProjectProvider {
            project: CargoProject::new(root.to_string(), ProjectKind::VirtualWorkspace, infos),
            root_config: RootChangesetConfig::default(),
            additional: Vec::new(),
            existing_paths: vec![MANIFEST_FILE.to_string()],
        }
    }

    fn with_root_config(mut self, config: RootChangesetConfig) -> Self {
        self.root_config = config;
        self
    }

    fn with_additional_packages(mut self, packages: Vec<PackageInfo>) -> Self {
        self.additional = packages;
        self
    }
}

impl ProjectProvider for MockProjectProvider {
    fn discover_project(&self, _start_path: &str) -> Result<CargoProject> {
        Ok(self.project.clone())
    }

    fn load_configs(&self, _project: &CargoProject) -> Result<(RootChangesetConfig, Vec<(String, PackageChangesetConfig)>)> {
        Ok((self.root_config.clone(), Vec::new()))
    }

    fn ensure_changeset_dir(&self, project: &CargoProject, _config: &RootChangesetConfig) -> Result<String> {
        Ok(format!("{}/.changeset", project.root))
    }

    fn discover_additional_packages(&self, _root: &str, _config: &RootChangesetConfig) -> Result<Vec<PackageInfo>> {
        Ok(self.additional.clone())
    }

    fn path_exists(&self, path: &str) -> bool {
        self.existing_paths.iter().any(|p| p == path)
    }

    fn write_file(&self, _path: &str, _contents: &str) -> Result<()> {
        Ok(())
    }
}

/// Records what is written, with clones sharing the record.
#[derive(Clone, Default)]
struct MockAdditionalPackageConfigWriter {
    added: Rc<RefCell<Vec<(String, MetadataSection, String)>>>,
    removed: Rc<RefCell<Vec<String>>>,
    updated: Rc<RefCell<Vec<(String, AdditionalPackageUpdate)>>>,
}

impl MockAdditionalPackageConfigWriter {
    fn new() -> Self {
        MockAdditionalPackageConfigWriter::default()
    }
}

impl AdditionalPackageConfigWriter for MockAdditionalPackageConfigWriter {
    fn add_additional_package(
        &self,
        manifest_path: &str,
        section: MetadataSection,
        declaration: &AdditionalPackageDeclaration,
    ) -> Result<()> {
        self.added.borrow_mut().push((manifest_path.to_string(), section, declaration.name.clone()));
        Ok(())
    }

    fn remove_additional_package(&self, _manifest_path: &str, _section: MetadataSection, name: &str) -> Result<()> {
        self.removed.borrow_mut().push(name.to_string());
        Ok(())
    }

    fn update_additional_package(
        &self,
        _manifest_path: &str,
        _section: MetadataSection,
        name: &str,
        updates: &AdditionalPackageUpdate,
    ) -> Result<()> {
        self.updated.borrow_mut().push((name.to_string(), updates.clone()));
        Ok(())
    }
}

/// Fails the test if the operation asks the user anything.
struct PanickingAdditionalPackageInteractionProvider;

impl AdditionalPackageInteractionProvider for PanickingAdditionalPackageInteractionProvider {
    fn prompt_package_name(&self) -> Result<String> {
        panic!("unexpected prompt")
    }

    fn prompt_package_path(&self) -> Result<String> {
        panic!("unexpected prompt")
    }

    fn prompt_influence_patterns(&self, _package_path: &str) -> Result<Vec<String>> {
        panic!("unexpected prompt")
    }

    fn prompt_manifest_file_path(&self) -> Result<String> {
        panic!("unexpected prompt")
    }

    fn prompt_manifest_format(&self) -> Result<ManifestFormat> {
        panic!("unexpected prompt")
    }

    fn prompt_manifest_version_field_path(&self) -> Result<String> {
        panic!("unexpected prompt")
    }

    fn select_package_to_remove(&self, _packages: &[AdditionalPackageDeclaration]) -> Result<MenuSelection<usize>> {
        panic!("unexpected prompt")
    }

    fn confirm_removal(&self, _name: &str) -> Result<bool> {
        panic!("unexpected prompt")
    }

    fn select_package_to_edit(&self, _packages: &[AdditionalPackageDeclaration]) -> Result<MenuSelection<usize>> {
        panic!("unexpected prompt")
    }

    fn select_field_to_edit(&self) -> Result<MenuSelection<AdditionalPackageField>> {
        panic!("unexpected prompt")
    }
}

fn make_decl(name: &str) -> AdditionalPackageDeclaration {
    AdditionalPackageDeclaration {
        name: name.to_string(),
        path: format!("charts/{name}"),
        influence: vec![format!("charts/{name}/**")],
        manifest: AdditionalPackageManifest {
            file_path: format!("charts/{name}/Chart.yaml"),
            format: ManifestFormat::Yaml,
            version_field_path: "version".to_string(),
        },
    }
}

fn make_project_with_packages(additional: Vec<AdditionalPackageDeclaration>) -> MockProjectProvider {
    let mut config = RootChangesetConfig::default();
    config.additional_packages = additional;
    MockProjectProvider::workspace(vec![("crate-a", "1.0.0")]).with_root_config(config)
}

fn add_input(name: &str, path: &str, influence: Vec<String>, manifest_file_path: &str) -> AdditionalPackageAddInput {
    AdditionalPackageAddInput {
        name: name.to_string(),
        path: path.to_string(),
        influence,
        manifest_file_path: manifest_file_path.to_string(),
        manifest_format: ManifestFormat::Yaml,
        manifest_version_field_path: "version".to_string(),
    }
}

fn path_update(name: &str) -> AdditionalPackageEditInput {
    AdditionalPackageEditInput {
        name: name.to_string(),
        updates: AdditionalPackageUpdate {
            path: Some("new/path".to_string()),
            influence: None,
            manifest_file_path: None,
            manifest_format: None,
            manifest_version_field_path: None,
        },
    }
}

#[test]
fn direct_add_succeeds_with_valid_input() {
    let writer = MockAdditionalPackageConfigWriter::new();
    let op = AdditionalPackageDirectAddOperation::new(make_project_with_packages(vec![]), writer.clone());
    let input = add_input("my-chart", "charts/my-chart", vec!["charts/my-chart/**".to_string()], MANIFEST_FILE);
    let events = op.execute("/any", input).expect("should succeed");
    assert!(events.iter().any(|e| matches!(e, AdditionalPackageEvent::Added { name } if name == "my-chart")));
    let added = writer.added.borrow();
    assert_eq!(added.len(), 1);
    assert_eq!(added[0].0, "/mock/workspace/Cargo.toml");
    assert_eq!(added[0].1, MetadataSection::Workspace);
    assert_eq!(added[0].2, "my-chart");
}

#[test]
fn direct_add_rejects_duplicate_name() {
    let op = AdditionalPackageDirectAddOperation::new(
        make_project_with_packages(vec![make_decl("my-chart")]),
        MockAdditionalPackageConfigWriter::new(),
    );
    let result = op.execute("/any", add_input("my-chart", "charts/my-chart", vec![], MANIFEST_FILE));
    assert!(matches!(result, Err(OperationError::AdditionalPackageAlreadyExists { name }) if name == "my-chart"));
}

#[test]
fn direct_add_rejects_name_collision_with_rust_crate() {
    let op = AdditionalPackageDirectAddOperation::new(make_project_with_packages(vec![]), MockAdditionalPackageConfigWriter::new());
    let result = op.execute("/any", add_input("crate-a", "crate-a", vec![], MANIFEST_FILE));
    assert!(matches!(result, Err(OperationError::AdditionalPackageAlreadyExists { .. })));
}

#[test]
fn direct_add_validates_manifest_file_exists() {
    let op = AdditionalPackageDirectAddOperation::new(make_project_with_packages(vec![]), MockAdditionalPackageConfigWriter::new());
    let result = op.execute("/any", add_input("my-chart", "charts/my-chart", vec![], "/nonexistent/Chart.yaml"));
    assert!(matches!(result, Err(OperationError::AdditionalPackageManifestNotFound { .. })));
}

#[test]
fn direct_add_validates_glob_patterns() {
    let op = AdditionalPackageDirectAddOperation::new(make_project_with_packages(vec![]), MockAdditionalPackageConfigWriter::new());
    let result = op.execute("/any", add_input("my-chart", "charts/my-chart", vec!["[invalid".to_string()], MANIFEST_FILE));
    assert!(matches!(result, Err(OperationError::AdditionalPackageInvalidGlob { .. })));
}

#[test]
fn direct_remove_succeeds() {
    let writer = MockAdditionalPackageConfigWriter::new();
    let op = AdditionalPackageDirectRemoveOperation::new(make_project_with_packages(vec![make_decl("my-chart")]), writer.clone());
    let events = op.execute("/any", "my-chart").expect("should succeed");
    assert!(events.iter().any(|e| matches!(e, AdditionalPackageEvent::Removed { name } if name == "my-chart")));
    assert_eq!(*writer.removed.borrow(), vec!["my-chart".to_string()]);
}

#[test]
fn direct_remove_nonexistent() {
    let op = AdditionalPackageDirectRemoveOperation::new(make_project_with_packages(vec![]), MockAdditionalPackageConfigWriter::new());
    let result = op.execute("/any", "nonexistent");
    assert!(matches!(result, Err(OperationError::AdditionalPackageNotFound { .. })));
}

#[test]
fn direct_edit_updates_fields() {
    let writer = MockAdditionalPackageConfigWriter::new();
    let op = AdditionalPackageDirectEditOperation::new(make_project_with_packages(vec![make_decl("my-chart")]), writer.clone());
    let events = op.execute("/any", path_update("my-chart")).expect("should succeed");
    assert!(events.iter().any(|e| matches!(e, AdditionalPackageEvent::Updated { name, .. } if name == "my-chart")));
    assert_eq!(writer.updated.borrow().len(), 1);
}

#[test]
fn direct_edit_nonexistent() {
    let op = AdditionalPackageDirectEditOperation::new(make_project_with_packages(vec![]), MockAdditionalPackageConfigWriter::new());
    let result = op.execute("/any", path_update("nonexistent"));
    assert!(matches!(result, Err(OperationError::AdditionalPackageNotFound { .. })));
}

#[test]
fn list_returns_all_packages() {
    let op = AdditionalPackageListOperation::new(make_project_with_packages(vec![make_decl("chart-a"), make_decl("chart-b")]));
    let events = op.execute("/any").expect("should succeed");
    let listed = events.iter().find_map(|e| if let AdditionalPackageEvent::Listed(s) = e { Some(s) } else { None });
    let summaries = listed.expect("should have Listed event");
    assert_eq!(summaries.len(), 2);
}

#[test]
fn list_empty_returns_no_additional_packages() {
    let op = AdditionalPackageListOperation::new(make_project_with_packages(vec![]));
    let events = op.execute("/any").expect("should succeed");
    assert!(events.iter().any(|e| matches!(e, AdditionalPackageEvent::NoAdditionalPackages)));
}

#[test]
fn additional_packages_from_mock_provider() {
    let info = package("my-helm-chart", "1.2.3", "/mock/charts/my-helm-chart");
    let provider = MockProjectProvider::workspace(vec![]).with_additional_packages(vec![info]);
    let project_provider: &dyn ProjectProvider = &provider;
    let project = project_provider.discover_project("/any").expect("discover");
    let (root_config, _) = project_provider.load_configs(&project).expect("load configs");
    assert_eq!(root_config.additional_packages.len(), 0);
}

#[test]
fn add_rejects_single_package_project() {
    let op = AdditionalPackageDirectAddOperation::new(
        MockProjectProvider::single_package("my-crate", "1.0.0"),
        MockAdditionalPackageConfigWriter::new(),
    );
    let result = op.execute("/any", add_input("my-chart", "charts/my-chart", vec![], MANIFEST_FILE));
    assert!(matches!(result, Err(OperationError::AdditionalPackagesRequireWorkspace)));
}

#[test]
fn remove_rejects_single_package_project() {
    let op = AdditionalPackageDirectRemoveOperation::new(
        MockProjectProvider::single_package("my-crate", "1.0.0"),
        MockAdditionalPackageConfigWriter::new(),
    );
    let result = op.execute("/any", "my-chart");
    assert!(matches!(result, Err(OperationError::AdditionalPackagesRequireWorkspace)));
}

#[test]
fn edit_rejects_single_package_project() {
    let op = AdditionalPackageDirectEditOperation::new(
        MockProjectProvider::single_package("my-crate", "1.0.0"),
        MockAdditionalPackageConfigWriter::new(),
    );
    let result = op.execute("/any", path_update("my-chart"));
    assert!(matches!(result, Err(OperationError::AdditionalPackagesRequireWorkspace)));
}

#[test]
fn list_rejects_single_package_project() {
    let op = AdditionalPackageListOperation::new(MockProjectProvider::single_package("my-crate", "1.0.0"));
    let result = op.execute("/any");
    assert!(matches!(result, Err(OperationError::AdditionalPackagesRequireWorkspace)));
}

#[test]
fn interactive_add_rejects_single_package_without_prompts() {
    let op = AdditionalPackageInteractiveAddOperation::new(
        MockProjectProvider::single_package("my-crate", "1.0.0"),
        MockAdditionalPackageConfigWriter::new(),
        PanickingAdditionalPackageInteractionProvider,
    );
    let result = op.execute("/any");
    assert!(matches!(result, Err(OperationError::AdditionalPackagesRequireWorkspace)));
}

#[test]
fn interactive_remove_rejects_single_package_without_prompts() {
    let op = AdditionalPackageInteractiveRemoveOperation::new(
        MockProjectProvider::single_package("my-crate", "1.0.0"),
        MockAdditionalPackageConfigWriter::new(),
        PanickingAdditionalPackageInteractionProvider,
    );
    let result = op.execute("/any");
    assert!(matches!(result, Err(OperationError::AdditionalPackagesRequireWorkspace)));
}

#[test]
fn interactive_edit_rejects_single_package_without_prompts() {
    let op = AdditionalPackageInteractiveEditOperation::new(
        MockProjectProvider::single_package("my-crate", "1.0.0"),
        MockAdditionalPackageConfigWriter::new(),
        PanickingAdditionalPackageInteractionProvider,
    );
    let result = op.start("/any");
    assert!(matches!(result, Err(OperationError::AdditionalPackagesRequireWorkspace)));
}

/// Answers prompts from a script; field choices come from a queue that
/// ends with "done".
struct ScriptedInteraction {
    fields: RefCell<Vec<AdditionalPackageField>>,
    confirm: bool,
}

impl ScriptedInteraction {
    fn new(fields: Vec<AdditionalPackageField>, confirm: bool) -> Self {
        ScriptedInteraction { fields: RefCell::new(fields), confirm }
    }
}

impl AdditionalPackageInteractionProvider for ScriptedInteraction {
    fn prompt_package_name(&self) -> Result<String> {
        Ok("docs-site".to_string())
    }

    fn prompt_package_path(&self) -> Result<String> {
        Ok("sites/docs".to_string())
    }

    fn prompt_influence_patterns(&self, package_path: &str) -> Result<Vec<String>> {
        Ok(vec![format!("{package_path}/**")])
    }

    fn prompt_manifest_file_path(&self) -> Result<String> {
        Ok(MANIFEST_FILE.to_string())
    }

    fn prompt_manifest_format(&self) -> Result<ManifestFormat> {
        Ok(ManifestFormat::Json)
    }

    fn prompt_manifest_version_field_path(&self) -> Result<String> {
        Ok("version".to_string())
    }

    fn select_package_to_remove(&self, _packages: &[AdditionalPackageDeclaration]) -> Result<MenuSelection<usize>> {
        Ok(MenuSelection::Selected(0))
    }

    fn confirm_removal(&self, _name: &str) -> Result<bool> {
        Ok(self.confirm)
    }

    fn select_package_to_edit(&self, _packages: &[AdditionalPackageDeclaration]) -> Result<MenuSelection<usize>> {
        Ok(MenuSelection::Selected(0))
    }

    fn select_field_to_edit(&self) -> Result<MenuSelection<AdditionalPackageField>> {
        let mut fields = self.fields.borrow_mut();
        if fields.is_empty() {
            Ok(MenuSelection::Cancelled)
        } else {
            Ok(MenuSelection::Selected(fields.remove(0)))
        }
    }
}

#[test]
fn interactive_add_declares_the_answered_package() {
    let writer = MockAdditionalPackageConfigWriter::new();
    let op = AdditionalPackageInteractiveAddOperation::new(
        make_project_with_packages(vec![]),
        writer.clone(),
        ScriptedInteraction::new(vec![], true),
    );
    let events = op.execute("/any").expect("should succeed");
    assert_eq!(events, vec![AdditionalPackageEvent::Added { name: "docs-site".to_string() }]);
    assert_eq!(writer.added.borrow()[0].2, "docs-site");
}

#[test]
fn interactive_remove_needs_confirmation() {
    let writer = MockAdditionalPackageConfigWriter::new();
    let op = AdditionalPackageInteractiveRemoveOperation::new(
        make_project_with_packages(vec![make_decl("my-chart")]),
        writer.clone(),
        ScriptedInteraction::new(vec![], false),
    );
    assert!(op.execute("/any").expect("should succeed").is_empty());
    assert!(writer.removed.borrow().is_empty());

    let op = AdditionalPackageInteractiveRemoveOperation::new(
        make_project_with_packages(vec![make_decl("my-chart")]),
        writer.clone(),
        ScriptedInteraction::new(vec![], true),
    );
    let events = op.execute("/any").expect("should succeed");
    assert_eq!(events, vec![AdditionalPackageEvent::Removed { name: "my-chart".to_string() }]);
}

#[test]
fn interactive_edit_records_fields_in_order_until_done() {
    let writer = MockAdditionalPackageConfigWriter::new();
    let op = AdditionalPackageInteractiveEditOperation::new(
        make_project_with_packages(vec![make_decl("my-chart")]),
        writer.clone(),
        ScriptedInteraction::new(
            vec![AdditionalPackageField::Path, AdditionalPackageField::Influence, AdditionalPackageField::ManifestFormat],
            true,
        ),
    );
    let mut session = match op.start("/any").expect("should start") {
        AdditionalPackageEditStart::Editing(session) => session,
        AdditionalPackageEditStart::Finished(events) => panic!("expected a session, got {events:?}"),
    };
    let mut rounds = 0;
    while op.step(&mut session).expect("step should succeed") {
        rounds += 1;
    }
    assert_eq!(rounds, 3);
    assert_eq!(session.updates.influence, Some(vec!["sites/docs/**".to_string()]), "patterns follow the edited directory");
    let events = op.finish(session).expect("should finish");
    assert_eq!(
        events,
        vec![AdditionalPackageEvent::Updated {
            name: "my-chart".to_string(),
            field: "path, influence, manifest.format".to_string()
        }]
    );
    let updated = writer.updated.borrow();
    assert_eq!(updated.len(), 1);
    assert_eq!(updated[0].1.path, Some("sites/docs".to_string()));
    assert_eq!(updated[0].1.manifest_format, Some(ManifestFormat::Json));
}

#[test]
fn interactive_edit_without_changes_writes_nothing() {
    let writer = MockAdditionalPackageConfigWriter::new();
    let op = AdditionalPackageInteractiveEditOperation::new(
        make_project_with_packages(vec![make_decl("my-chart")]),
        writer.clone(),
        ScriptedInteraction::new(vec![], true),
    );
    let mut session = match op.start("/any").expect("should start") {
        AdditionalPackageEditStart::Editing(session) => session,
        AdditionalPackageEditStart::Finished(events) => panic!("expected a session, got {events:?}"),
    };
    assert!(!op.step(&mut session).expect("step should succeed"));
    assert!(op.finish(session).expect("should finish").is_empty());
    assert!(writer.updated.borrow().is_empty());
}

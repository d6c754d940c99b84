use std::cell::{Cell, RefCell};

use changeset_operations::add::{collect_explicit_packages, AddInput, AddOperation, AddResult};
use changeset_operations::config::{PackageChangesetConfig, RootChangesetConfig};
use changeset_operations::error::{OperationError, Result};
use changeset_operations::git::{FileChange, FileStatus};
use changeset_operations::graph::WorkspaceDependencyGraph;
use changeset_operations::manage::{
    parse_prerelease_entry, GraduationDirectInput, GraduationDirectOperation, GraduationEvent, PrereleaseDirectInput,
    PrereleaseDirectOperation, PrereleaseEvent,
};
use changeset_operations::model::{
    CargoProject, ChangeCategory, Changeset, PackageInfo, PackageRelease, ProjectKind,
};
use changeset_operations::name_map::NameMap;
use changeset_operations::paths::is_markdown_file;
use changeset_operations::release_state::{GraduationState, PrereleaseState};
use changeset_operations::status::StatusOperation;
use changeset_operations::traits::{
    BumpSelection, CategorySelection, ChangesetWriter, DescriptionInput, InteractionProvider, PackageSelection,
    ChangesetReader, DependencyGraphProvider, GitDiffProvider, GitStatusProvider, GitWorkdirDiffProvider,
    InheritedVersionChecker, ProjectProvider, ReleaseStateIO,
};
use changeset_operations::validator::{PackageReleaseConfigBuilder, ReleaseInputBuilder};
use changeset_operations::verify::{VerifyInputBuilder, VerifyOperation, VerifyOutcome};
use changeset_operations::version::{BumpType, Version};

fn version(text: &str) -> Version {
    Version::parse(text).expect("valid version")
}

fn package(name: &str, version_text: &str, path: &str) -> PackageInfo {
    PackageInfo { name: name.to_string(), version: version(version_text), path: path.to_string() }
}

fn make_changeset(name: &str, bump: BumpType, summary: &str) -> Changeset {
    Changeset {
        summary: summary.to_string(),
        category: ChangeCategory::Changed,
        releases: vec![PackageRelease { name: name.to_string(), bump_type: bump }],
        consumed_for_prerelease: None,
        graduate: false,
    }
}

struct MockProjectProvider {
    project: CargoProject,
    root_config: RootChangesetConfig,
    edges: Vec<(String, String)>,
}

impl MockProjectProvider {
    fn single_package(name: &str, version_text: &str) -> Self {
        let root = "/mock/project";
        MockProjectProvider {
            project: CargoProject::new(root.to_string(), ProjectKind::SinglePackage, vec![package(name, version_text, root)]),
            root_config: RootChangesetConfig::default(),
            edges: Vec::new(),
        }
    }

    fn workspace(packages: Vec<(&str, &str)>) -> Self {
        let root = "/mock/workspace";
        let infos = packages
            .into_iter()
            .map(|(name, v)| package(name, v, &format!("{root}/crates/{name}")))
            .collect();
        MockProjectProvider {
            project: CargoProject::new(root.to_string(), ProjectKind::VirtualWorkspace, infos),
            root_config: RootChangesetConfig::default(),
            edges: Vec::new(),
        }
    }

    fn with_dependency_edges(mut self, edges: Vec<(&str, &str)>) -> Self {
        self.edges = edges.into_iter().map(|(a, b)| (a.to_string(), b.to_string())).collect();
        self
    }
}

impl ProjectProvider for MockProjectProvider {
    fn discover_project(&self, _start_path: &str) -> Result<CargoProject> {
        Ok(self.project.clone())
    }

    fn load_configs(&self, _project: &CargoProject) -> Result<(RootChangesetConfig, Vec<(String, PackageChangesetConfig)>)> {
        Ok((self.root_config.clone(), Vec::new()))
    }

    fn ensure_changeset_dir(&self, project: &CargoProject, config: &RootChangesetConfig) -> Result<String> {
        Ok(format!("{}/{}", project.root, config.changeset_dir))
    }

    fn discover_additional_packages(&self, _root: &str, _config: &RootChangesetConfig) -> Result<Vec<PackageInfo>> {
        Ok(Vec::new())
    }

    fn path_exists(&self, _path: &str) -> bool {
        true
    }

    fn write_file(&self, _path: &str, _contents: &str) -> Result<()> {
        Ok(())
    }
}

impl DependencyGraphProvider for MockProjectProvider {
    fn build_dependency_graph(&self, _project: &CargoProject) -> Result<WorkspaceDependencyGraph> {
        Ok(WorkspaceDependencyGraph::new(self.edges.clone()))
    }
}

struct MockGitProvider {
    clean: bool,
    changed_files: Vec<FileChange>,
    uncommitted: Vec<FileChange>,
    fail_on_is_clean: Cell<bool>,
}

impl MockGitProvider {
    fn new() -> Self {
        MockGitProvider { clean: true, changed_files: Vec::new(), uncommitted: Vec::new(), fail_on_is_clean: Cell::new(false) }
    }

    fn is_clean(mut self, clean: bool) -> Self {
        self.clean = clean;
        self
    }

    fn with_changed_files(mut self, files: Vec<FileChange>) -> Self {
        self.changed_files = files;
        self
    }

    fn with_uncommitted_changes(mut self, files: Vec<FileChange>) -> Self {
        self.uncommitted = files;
        self
    }

    fn set_fail_on_is_clean(&self, fail: bool) {
        self.fail_on_is_clean.set(fail);
    }
}

impl GitDiffProvider for MockGitProvider {
    fn changed_files(&self, _root: &str, _base: &str, _head: &str) -> Result<Vec<FileChange>> {
        Ok(self.changed_files.clone())
    }
}

impl GitWorkdirDiffProvider for MockGitProvider {
    fn uncommitted_changes(&self, _root: &str) -> Result<Vec<FileChange>> {
        Ok(self.uncommitted.clone())
    }
}

impl GitStatusProvider for MockGitProvider {
    fn is_working_tree_clean(&self, _root: &str) -> Result<bool> {
        if self.fail_on_is_clean.get() {
            return Err(OperationError::Provider { message: "mock git status failure".to_string() });
        }
        Ok(self.clean)
    }

    fn current_branch(&self, _root: &str) -> Result<String> {
        Ok("main".to_string())
    }

    fn remote_url(&self, _root: &str) -> Result<Option<String>> {
        Ok(None)
    }
}

struct MockChangesetReader {
    changesets: Vec<(String, Changeset)>,
}

impl MockChangesetReader {
    fn new() -> Self {
        MockChangesetReader { changesets: Vec::new() }
    }

    fn with_changeset(mut self, path: &str, changeset: Changeset) -> Self {
        self.changesets.push((path.to_string(), changeset));
        self
    }
}

impl ChangesetReader for MockChangesetReader {
    fn read_changeset(&self, path: &str) -> Result<Changeset> {
        self.changesets
            .iter()
            .find(|(p, _)| p == path)
            .map(|(_, c)| c.clone())
            .ok_or_else(|| OperationError::ChangesetFileRead { path: path.to_string() })
    }

    fn list_changesets(&self, _changeset_dir: &str) -> Result<Vec<String>> {
        Ok(self.changesets.iter().map(|(p, _)| p.clone()).collect())
    }

    fn list_consumed_changesets(&self, _changeset_dir: &str) -> Result<Vec<String>> {
        Ok(Vec::new())
    }
}

struct MockInheritedVersionChecker;

impl InheritedVersionChecker for MockInheritedVersionChecker {
    fn has_inherited_version(&self, _manifest_path: &str) -> Result<bool> {
        Ok(false)
    }
}

struct FailingInheritedVersionChecker;

impl InheritedVersionChecker for FailingInheritedVersionChecker {
    fn has_inherited_version(&self, manifest_path: &str) -> Result<bool> {
        Err(OperationError::Provider { message: format!("mock read error for {manifest_path}") })
    }
}

struct MockReleaseStateIO {
    prerelease: RefCell<Option<PrereleaseState>>,
    graduation: RefCell<Option<GraduationState>>,
}

impl MockReleaseStateIO {
    fn new() -> Self {
        MockReleaseStateIO { prerelease: RefCell::new(None), graduation: RefCell::new(None) }
    }
}

impl ReleaseStateIO for MockReleaseStateIO {
    fn load_prerelease_state(&self, _dir: &str) -> Result<Option<PrereleaseState>> {
        Ok(self.prerelease.borrow().clone())
    }

    fn save_prerelease_state(&self, _dir: &str, state: &PrereleaseState) -> Result<()> {
        *self.prerelease.borrow_mut() = Some(state.clone());
        Ok(())
    }

    fn load_graduation_state(&self, _dir: &str) -> Result<Option<GraduationState>> {
        Ok(self.graduation.borrow().clone())
    }

    fn save_graduation_state(&self, _dir: &str, state: &GraduationState) -> Result<()> {
        *self.graduation.borrow_mut() = Some(state.clone());
        Ok(())
    }
}

fn default_verify_input() -> changeset_operations::verify::VerifyInput {
    VerifyInputBuilder::default().base("main".to_string()).build().expect("all fields have defaults")
}

#[test]
fn parses_valid_format() {
    let result = parse_prerelease_entry("my-crate:alpha");

    assert!(result.is_ok());
    let (name, tag) = result.expect("should parse");
    assert_eq!(name, "my-crate");
    assert_eq!(tag, "alpha");
}

#[test]
fn parses_custom_tag() {
    let result = parse_prerelease_entry("crate-name:nightly");

    assert!(result.is_ok());
    let (name, tag) = result.expect("should parse");
    assert_eq!(name, "crate-name");
    assert_eq!(tag, "nightly");
}

#[test]
fn handles_multiple_colons() {
    let result = parse_prerelease_entry("crate:tag:extra");

    assert!(result.is_ok());
    let (name, tag) = result.expect("should parse");
    assert_eq!(name, "crate");
    assert_eq!(tag, "tag:extra");
}

#[test]
fn rejects_entries_without_both_parts() {
    for entry in ["no-colon-here", ":alpha", "crate-name:"] {
        let result = parse_prerelease_entry(entry);
        assert!(matches!(result, Err(OperationError::InvalidPrereleaseFormat { .. })), "{entry}");
    }
}

#[test]
fn builder_sets_dry_run() {
    let input = ReleaseInputBuilder::default().dry_run(true).build().expect("all fields have defaults");

    assert!(input.dry_run());
}

#[test]
fn builder_sets_per_package_config() {
    let mut map = NameMap::new();
    map.insert(
        "crate-a".to_string(),
        PackageReleaseConfigBuilder::default().build().expect("all fields have defaults"),
    );

    let input = ReleaseInputBuilder::default().per_package_config(map).build().expect("all fields have defaults");

    assert!(input.per_package_config().contains_key("crate-a"));
}

#[test]
fn propagates_inherited_version_checker_errors() {
    let project_provider = MockProjectProvider::single_package("my-crate", "1.0.0");
    let changeset_reader = MockChangesetReader::new();

    let operation = StatusOperation::new(project_provider, changeset_reader, FailingInheritedVersionChecker);

    let result = operation.execute("/any");

    assert!(result.is_err());
}

#[test]
fn returns_no_changes_when_no_files_changed() {
    let project_provider = MockProjectProvider::single_package("my-crate", "1.0.0");
    let git_provider = MockGitProvider::new();
    let changeset_reader = MockChangesetReader::new();

    let operation = VerifyOperation::new(project_provider, git_provider, changeset_reader);

    let input = default_verify_input();

    let result = operation.execute("/any", &input).expect("VerifyOperation failed when no files changed");

    assert!(matches!(result.outcome, VerifyOutcome::NoChanges));
}

#[test]
fn is_markdown_file_recognizes_md_extension() {
    assert!(is_markdown_file("test.md"));
    assert!(is_markdown_file("path/to/file.md"));
    assert!(!is_markdown_file("test.rs"));
    assert!(!is_markdown_file("test"));
}

#[test]
fn dirty_tree_with_empty_uncommitted_changes_yields_no_changes() {
    let project_provider = MockProjectProvider::single_package("my-crate", "1.0.0");

    let git_provider = MockGitProvider::new().is_clean(false).with_uncommitted_changes(vec![]);

    let changeset_reader = MockChangesetReader::new();

    let operation = VerifyOperation::new(project_provider, git_provider, changeset_reader);

    let input = default_verify_input();

    let result = operation.execute("/any", &input).expect("operation should not error");

    assert!(!result.is_dirty);
    assert!(matches!(result.outcome, VerifyOutcome::NoChanges));
}

#[test]
fn is_working_tree_clean_error_propagates() {
    let project_provider = MockProjectProvider::single_package("my-crate", "1.0.0");

    let git_provider = MockGitProvider::new();
    git_provider.set_fail_on_is_clean(true);

    let changeset_reader = MockChangesetReader::new();

    let operation = VerifyOperation::new(project_provider, git_provider, changeset_reader);

    let input = default_verify_input();

    let result = operation.execute("/any", &input);

    assert!(result.is_err());
}

#[test]
fn prerelease_direct_adds_removes_and_lists() {
    let operation = PrereleaseDirectOperation::new(
        MockProjectProvider::workspace(vec![("crate-a", "1.0.0"), ("crate-b", "0.4.0")]),
        MockReleaseStateIO::new(),
    );
    let input = PrereleaseDirectInput::new(
        vec!["crate-a:alpha".to_string(), "crate-b:beta".to_string()],
        vec!["crate-a".to_string()],
        vec![],
        true,
    );

    let events = operation.execute("/any", &input).expect("prerelease should succeed");

    assert_eq!(events.len(), 4);
    assert_eq!(events[0], PrereleaseEvent::Added { crate_name: "crate-a".to_string(), tag: "alpha".to_string() });
    assert_eq!(events[2], PrereleaseEvent::Removed { crate_name: "crate-a".to_string() });
    assert_eq!(events[3], PrereleaseEvent::DisplayState(vec![("crate-b".to_string(), "beta".to_string())]));
}

#[test]
fn prerelease_direct_rejects_unknown_package() {
    let operation = PrereleaseDirectOperation::new(
        MockProjectProvider::single_package("crate-a", "1.0.0"),
        MockReleaseStateIO::new(),
    );
    let input = PrereleaseDirectInput::new(vec!["missing:alpha".to_string()], vec![], vec![], false);

    let result = operation.execute("/any", &input);

    assert!(matches!(result, Err(OperationError::PackageNotFound { name }) if name == "missing"));
}

#[test]
fn graduation_direct_rejects_stable_package() {
    let operation = GraduationDirectOperation::new(
        MockProjectProvider::single_package("crate-a", "1.2.0"),
        MockReleaseStateIO::new(),
    );
    let input = GraduationDirectInput::new(vec!["crate-a".to_string()], vec![], false);

    let result = operation.execute("/any", &input);

    assert!(matches!(result, Err(OperationError::CannotGraduateStable { .. })));
}

#[test]
fn graduation_direct_queues_zero_version_package() {
    let operation = GraduationDirectOperation::new(
        MockProjectProvider::single_package("crate-a", "0.5.0"),
        MockReleaseStateIO::new(),
    );
    let input = GraduationDirectInput::new(vec!["crate-a".to_string()], vec![], true);

    let events = operation.execute("/any", &input).expect("graduation should succeed");

    assert_eq!(events[0], GraduationEvent::Added { crate_name: "crate-a".to_string() });
    assert_eq!(events[1], GraduationEvent::DisplayState(vec!["crate-a".to_string()]));
}

struct MockChangesetWriter {
    written: RefCell<Vec<(String, Changeset)>>,
    filename: String,
}

impl MockChangesetWriter {
    fn new() -> Self {
        MockChangesetWriter { written: RefCell::new(Vec::new()), filename: "mock-changeset.md".to_string() }
    }

    fn with_filename(mut self, filename: &str) -> Self {
        self.filename = filename.to_string();
        self
    }
}

impl ChangesetWriter for MockChangesetWriter {
    fn write_changeset(&self, changeset_dir: &str, changeset: &Changeset) -> Result<String> {
        self.written.borrow_mut().push((changeset_dir.to_string(), changeset.clone()));
        Ok(self.filename.clone())
    }

    fn restore_changeset(&self, path: &str, changeset: &Changeset) -> Result<()> {
        self.written.borrow_mut().push((path.to_string(), changeset.clone()));
        Ok(())
    }

    fn filename_exists(&self, _changeset_dir: &str, _filename: &str) -> bool {
        false
    }

    fn mark_consumed_for_prerelease(&self, _dir: &str, _paths: &[String], _version: &Version) -> Result<()> {
        Ok(())
    }

    fn clear_consumed_for_prerelease(&self, _dir: &str, _paths: &[String]) -> Result<()> {
        Ok(())
    }
}

struct MockInteractionProvider {
    package_selection: Option<Vec<PackageInfo>>,
    bump_selections: RefCell<Vec<BumpType>>,
    category_selection: CategorySelection,
    description: DescriptionInput,
}

impl MockInteractionProvider {
    fn all_cancelled() -> Self {
        MockInteractionProvider {
            package_selection: None,
            bump_selections: RefCell::new(Vec::new()),
            category_selection: CategorySelection::Cancelled,
            description: DescriptionInput::Cancelled,
        }
    }

    fn with_selections(packages: Vec<PackageInfo>, bump: BumpType, description: &str) -> Self {
        MockInteractionProvider {
            package_selection: Some(packages),
            bump_selections: RefCell::new(vec![bump]),
            category_selection: CategorySelection::Selected(ChangeCategory::Changed),
            description: DescriptionInput::Provided(description.to_string()),
        }
    }

    fn with_bump_sequence(self, bumps: Vec<BumpType>) -> Self {
        MockInteractionProvider { bump_selections: RefCell::new(bumps), ..self }
    }
}

impl InteractionProvider for MockInteractionProvider {
    fn select_packages(&self, _available: &[PackageInfo]) -> Result<PackageSelection> {
        Ok(match &self.package_selection {
            Some(p) => PackageSelection::Selected(p.clone()),
            None => PackageSelection::Cancelled,
        })
    }

    fn select_bump_type(&self, _package_name: &str) -> Result<BumpSelection> {
        let mut selections = self.bump_selections.borrow_mut();
        if selections.is_empty() {
            return Ok(BumpSelection::Cancelled);
        }
        Ok(BumpSelection::Selected(selections.remove(0)))
    }

    fn select_category(&self) -> Result<CategorySelection> {
        Ok(self.category_selection)
    }

    fn get_description(&self) -> Result<DescriptionInput> {
        Ok(self.description.clone())
    }
}

fn make_package(name: &str, version_text: &str) -> PackageInfo {
    package(name, version_text, &format!("/mock/crates/{name}"))
}

#[test]
fn collect_explicit_packages_from_packages_list() {
    let input = AddInput { packages: vec!["a".to_string(), "b".to_string()], ..Default::default() };

    let packages = collect_explicit_packages(&input);

    assert_eq!(packages.len(), 2);
    assert!(packages.contains(&"a".to_string()));
    assert!(packages.contains(&"b".to_string()));
}

#[test]
fn collect_explicit_packages_from_package_bumps() {
    let mut package_bumps = NameMap::new();
    package_bumps.insert("a".to_string(), BumpType::Major);
    package_bumps.insert("b".to_string(), BumpType::Minor);
    let input = AddInput { package_bumps, ..Default::default() };

    let packages = collect_explicit_packages(&input);

    assert_eq!(packages.len(), 2);
    assert!(packages.contains(&"a".to_string()));
    assert!(packages.contains(&"b".to_string()));
}

#[test]
fn collect_explicit_packages_merges_and_deduplicates() {
    let mut package_bumps = NameMap::new();
    package_bumps.insert("b".to_string(), BumpType::Major);
    package_bumps.insert("c".to_string(), BumpType::Minor);
    let input = AddInput { packages: vec!["a".to_string(), "b".to_string()], package_bumps, ..Default::default() };

    let packages = collect_explicit_packages(&input);

    assert_eq!(packages.len(), 3);
    assert!(packages.contains(&"a".to_string()));
    assert!(packages.contains(&"b".to_string()));
    assert!(packages.contains(&"c".to_string()));
    assert_eq!(packages, vec!["a", "b", "c"]);
}

#[test]
fn collect_explicit_packages_empty() {
    let input = AddInput::default();

    assert!(collect_explicit_packages(&input).is_empty());
}

#[test]
fn creates_changeset_for_single_package_project() {
    let project_provider = MockProjectProvider::single_package("my-crate", "1.0.0");
    let writer = MockChangesetWriter::new().with_filename("test-changeset.md");
    let operation = AddOperation::new(project_provider, writer, MockInteractionProvider::all_cancelled());
    let input = AddInput {
        packages: vec!["my-crate".to_string()],
        bump: Some(BumpType::Patch),
        description: Some("Fix a bug".to_string()),
        ..Default::default()
    };

    let result = operation.execute("/any", input).expect("AddOperation failed with valid single-package input");

    match result {
        AddResult::Created { changeset, file_path } => {
            assert_eq!(changeset.summary, "Fix a bug");
            assert_eq!(changeset.releases.len(), 1);
            assert_eq!(changeset.releases[0].name, "my-crate");
            assert_eq!(changeset.releases[0].bump_type, BumpType::Patch);
            assert!(file_path.ends_with("test-changeset.md"));
        },
        _ => panic!("Expected AddResult::Created"),
    }
}

#[test]
fn creates_changeset_with_multiple_packages() {
    let project_provider = MockProjectProvider::workspace(vec![("crate-a", "1.0.0"), ("crate-b", "2.0.0")]);
    let operation = AddOperation::new(project_provider, MockChangesetWriter::new(), MockInteractionProvider::all_cancelled());
    let mut package_bumps = NameMap::new();
    package_bumps.insert("crate-a".to_string(), BumpType::Major);
    package_bumps.insert("crate-b".to_string(), BumpType::Minor);
    let input = AddInput { package_bumps, description: Some("Breaking change".to_string()), ..Default::default() };

    let result = operation.execute("/any", input).expect("AddOperation failed with valid multi-package input");

    match result {
        AddResult::Created { changeset, .. } => {
            assert_eq!(changeset.releases.len(), 2);
            let names: Vec<_> = changeset.releases.iter().map(|r| r.name.as_str()).collect();
            assert!(names.contains(&"crate-a"));
            assert!(names.contains(&"crate-b"));
            assert_eq!(changeset.releases[0].bump_type, BumpType::Major);
            assert_eq!(changeset.releases[1].bump_type, BumpType::Minor);
        },
        _ => panic!("Expected AddResult::Created"),
    }
}

#[test]
fn returns_cancelled_when_package_selection_cancelled() {
    let project_provider = MockProjectProvider::workspace(vec![("a", "1.0.0"), ("b", "1.0.0")]);
    let operation = AddOperation::new(project_provider, MockChangesetWriter::new(), MockInteractionProvider::all_cancelled());

    let result = operation.execute("/any", AddInput::default()).expect("AddOperation should not fail when interaction is cancelled");

    assert!(matches!(result, AddResult::Cancelled));
}

#[test]
fn returns_cancelled_when_bump_selection_cancelled() {
    let packages = vec![make_package("my-crate", "1.0.0")];
    let project_provider = MockProjectProvider::workspace(vec![("my-crate", "1.0.0")]);
    let interaction = MockInteractionProvider {
        package_selection: Some(packages),
        bump_selections: RefCell::new(vec![]),
        category_selection: CategorySelection::Selected(ChangeCategory::Changed),
        description: DescriptionInput::Provided("test".to_string()),
    };
    let operation = AddOperation::new(project_provider, MockChangesetWriter::new(), interaction);

    let result = operation.execute("/any", AddInput::default()).expect("AddOperation should not fail when bump selection is cancelled");

    assert!(matches!(result, AddResult::Cancelled));
}

#[test]
fn returns_error_for_unknown_package() {
    let project_provider = MockProjectProvider::single_package("real-crate", "1.0.0");
    let operation = AddOperation::new(project_provider, MockChangesetWriter::new(), MockInteractionProvider::all_cancelled());
    let input = AddInput {
        packages: vec!["unknown-crate".to_string()],
        bump: Some(BumpType::Patch),
        description: Some("Test".to_string()),
        ..Default::default()
    };

    let result = operation.execute("/any", input);

    assert!(result.is_err());
    let err = result.expect_err("AddOperation should fail for unknown package");
    assert!(matches!(err, OperationError::UnknownPackage { .. }));
    assert_eq!(err.to_string(), "unknown package 'unknown-crate' (available: real-crate)");
}

#[test]
fn returns_error_for_empty_description() {
    let project_provider = MockProjectProvider::single_package("my-crate", "1.0.0");
    let operation = AddOperation::new(project_provider, MockChangesetWriter::new(), MockInteractionProvider::all_cancelled());
    let input = AddInput {
        packages: vec!["my-crate".to_string()],
        bump: Some(BumpType::Patch),
        description: Some("   ".to_string()),
        ..Default::default()
    };

    let result = operation.execute("/any", input);

    assert!(result.is_err());
    assert!(matches!(result.expect_err("AddOperation should fail for empty description"), OperationError::EmptyDescription));
}

#[test]
fn uses_interactive_selection_for_workspace_without_explicit_packages() {
    let packages = vec![make_package("crate-a", "1.0.0"), make_package("crate-b", "2.0.0")];
    let project_provider = MockProjectProvider::workspace(vec![("crate-a", "1.0.0"), ("crate-b", "2.0.0")]);
    let interaction = MockInteractionProvider::with_selections(packages, BumpType::Minor, "Interactive desc")
        .with_bump_sequence(vec![BumpType::Minor, BumpType::Minor]);
    let operation = AddOperation::new(project_provider, MockChangesetWriter::new(), interaction);

    let result = operation.execute("/any", AddInput::default()).expect("AddOperation failed with interactive workspace selection");

    match result {
        AddResult::Created { changeset, .. } => {
            assert_eq!(changeset.summary, "Interactive desc");
            assert_eq!(changeset.releases.len(), 2);
        },
        _ => panic!("Expected AddResult::Created"),
    }
}

#[test]
fn auto_selects_single_package_without_interaction() {
    let project_provider = MockProjectProvider::single_package("solo-crate", "1.0.0");
    let interaction =
        MockInteractionProvider::with_selections(vec![make_package("solo-crate", "1.0.0")], BumpType::Patch, "Auto-selected");
    let operation = AddOperation::new(project_provider, MockChangesetWriter::new(), interaction);
    let input = AddInput {
        bump: Some(BumpType::Patch),
        description: Some("Non-interactive description".to_string()),
        ..Default::default()
    };

    let result = operation.execute("/any", input).expect("AddOperation failed for single-package auto-selection");

    match result {
        AddResult::Created { changeset, .. } => {
            assert_eq!(changeset.releases.len(), 1);
            assert_eq!(changeset.releases[0].name, "solo-crate");
            assert_eq!(changeset.summary, "Non-interactive description");
        },
        _ => panic!("Expected AddResult::Created"),
    }
}

#[test]
fn respects_explicit_category() {
    let project_provider = MockProjectProvider::single_package("my-crate", "1.0.0");
    let operation = AddOperation::new(project_provider, MockChangesetWriter::new(), MockInteractionProvider::all_cancelled());
    let input = AddInput {
        packages: vec!["my-crate".to_string()],
        bump: Some(BumpType::Minor),
        category: ChangeCategory::Fixed,
        description: Some("Bug fix".to_string()),
        ..Default::default()
    };

    let result = operation.execute("/any", input).expect("AddOperation failed with explicit category");

    match result {
        AddResult::Created { changeset, .. } => assert_eq!(changeset.category, ChangeCategory::Fixed),
        _ => panic!("Expected AddResult::Created"),
    }
}

#[test]
fn creates_changeset_file_in_project() {
    let project_provider = MockProjectProvider::single_package("my-crate", "1.0.0");
    let writer = MockChangesetWriter::new().with_filename("my-changeset.md");
    let operation = AddOperation::new(project_provider, writer, MockInteractionProvider::all_cancelled());
    let input = AddInput {
        packages: vec!["my-crate".to_string()],
        bump: Some(BumpType::Patch),
        description: Some("Test description".to_string()),
        ..Default::default()
    };

    let result = operation.execute("/any", input).expect("AddOperation failed to create changeset file");

    match result {
        AddResult::Created { file_path, .. } => assert!(file_path.contains("my-changeset.md")),
        _ => panic!("Expected AddResult::Created"),
    }
}

#[test]
fn description_is_trimmed() {
    let project_provider = MockProjectProvider::single_package("my-crate", "1.0.0");
    let operation = AddOperation::new(project_provider, MockChangesetWriter::new(), MockInteractionProvider::all_cancelled());
    let input = AddInput {
        packages: vec!["my-crate".to_string()],
        bump: Some(BumpType::Patch),
        description: Some("  Fix a bug \n".to_string()),
        ..Default::default()
    };

    match operation.execute("/any", input).expect("created") {
        AddResult::Created { changeset, .. } => assert_eq!(changeset.summary, "Fix a bug"),
        _ => panic!("Expected AddResult::Created"),
    }
}

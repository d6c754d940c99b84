use std::cell::RefCell;
use std::rc::Rc;

use changeset_operations::changelog::{ChangelogWriteResult, RepositoryInfo, VersionRelease};
use changeset_operations::config::{InitConfig, MetadataSection, PackageChangesetConfig, RootChangesetConfig};
use changeset_operations::error::{OperationError, Result};
use changeset_operations::git::{CommitInfo, TagInfo};
use changeset_operations::graph::WorkspaceDependencyGraph;
use changeset_operations::model::{
    CargoProject, ChangeCategory, Changeset, NoneBumpBehavior, PackageInfo, PackageRelease, ProjectKind,
};
use changeset_operations::release::ReleaseOperation;
use changeset_operations::release_state::{GraduationState, PrereleaseSpec, PrereleaseState};
use changeset_operations::release_types::ReleaseOutcome;
use changeset_operations::traits::{
    ChangelogWriter, ChangesetReader, ChangesetWriter, DependencyGraphProvider, GitCommitProvider, GitProvider,
    GitStagingProvider, GitStatusProvider, GitTagProvider, InheritedVersionChecker, ManifestDependencyWriter,
    ManifestMetadataWriter, ManifestVersionWriter, ManifestWriter, ProjectProvider, ReleaseStateIO,
    WorkspaceVersionManager,
};
use changeset_operations::validator::{ReleaseInput, ReleaseInputBuilder};
use changeset_operations::version::{is_prerelease, BumpType, Version};

fn version(text: &str) -> Version {
    Version::parse(text).expect("valid version")
}

fn package(name: &str, version_text: &str, path: &str) -> PackageInfo {
    PackageInfo { name: name.to_string(), version: version(version_text), path: path.to_string() }
}

fn make_changeset(name: &str, bump: BumpType, summary: &str) -> Changeset {
    Changeset {
        summary: summary.to_string(),
        category: ChangeCategory::Changed,
        releases: vec![PackageRelease { name: name.to_string(), bump_type: bump }],
        consumed_for_prerelease: None,
        graduate: false,
    }
}

struct MockProjectProvider {
    project: CargoProject,
    root_config: RootChangesetConfig,
    edges: Vec<(String, String)>,
}

impl MockProjectProvider {
    fn single_package(name: &str, version_text: &str) -> Self {
        let root = "/mock/project";
        MockProjectProvider {
            project: CargoProject::new(root.to_string(), ProjectKind::SinglePackage, vec![package(name, version_text, root)]),
            root_config: RootChangesetConfig::default(),
            edges: Vec::new(),
        }
    }

    fn workspace(packages: Vec<(&str, &str)>) -> Self {
        let root = "/mock/workspace";
        let infos = packages.into_iter().map(|(n, v)| package(n, v, &format!("{root}/crates/{n}"))).collect();
        MockProjectProvider {
            project: CargoProject::new(root.to_string(), ProjectKind::VirtualWorkspace, infos),
            root_config: RootChangesetConfig::default(),
            edges: Vec::new(),
        }
    }

    fn with_root_config(mut self, config: RootChangesetConfig) -> Self {
        self.root_config = config;
        self
    }

    fn with_dependency_edges(mut self, edges: Vec<(&str, &str)>) -> Self {
        self.edges = edges.into_iter().map(|(a, b)| (a.to_string(), b.to_string())).collect();
        self
    }
}

impl ProjectProvider for MockProjectProvider {
    fn discover_project(&self, _start_path: &str) -> Result<CargoProject> {
        Ok(self.project.clone())
    }

    fn load_configs(&self, _project: &CargoProject) -> Result<(RootChangesetConfig, Vec<(String, PackageChangesetConfig)>)> {
        Ok((self.root_config.clone(), Vec::new()))
    }

    fn ensure_changeset_dir(&self, project: &CargoProject, _config: &RootChangesetConfig) -> Result<String> {
        Ok(format!("{}/.changeset", project.root))
    }

    fn discover_additional_packages(&self, _root: &str, _config: &RootChangesetConfig) -> Result<Vec<PackageInfo>> {
        Ok(Vec::new())
    }

    fn path_exists(&self, _path: &str) -> bool {
        false
    }

    fn write_file(&self, _path: &str, _contents: &str) -> Result<()> {
        Ok(())
    }
}

impl DependencyGraphProvider for MockProjectProvider {
    fn build_dependency_graph(&self, _project: &CargoProject) -> Result<WorkspaceDependencyGraph> {
        Ok(WorkspaceDependencyGraph::new(self.edges.clone()))
    }
}

/// Changeset files by path; clones share them, so a test keeps a handle.
#[derive(Clone)]
struct MockChangesetReader {
    changesets: Rc<RefCell<Vec<(String, Changeset)>>>,
}

impl MockChangesetReader {
    fn new() -> Self {
        MockChangesetReader { changesets: Rc::new(RefCell::new(Vec::new())) }
    }

    fn with_changeset(self, path: &str, changeset: Changeset) -> Self {
        self.changesets.borrow_mut().push((path.to_string(), changeset));
        self
    }

    fn with_changesets(self, changesets: Vec<(&str, Changeset)>) -> Self {
        for (path, changeset) in changesets {
            self.changesets.borrow_mut().push((path.to_string(), changeset));
        }
        self
    }

    fn with_consumed_changeset(self, path: &str, mut changeset: Changeset, version: String) -> Self {
        changeset.consumed_for_prerelease = Some(version);
        self.changesets.borrow_mut().push((path.to_string(), changeset));
        self
    }

    fn get_consumed_status(&self, path: &str) -> Option<String> {
        self.changesets.borrow().iter().find(|(p, _)| p == path).and_then(|(_, c)| c.consumed_for_prerelease.clone())
    }

    fn listed(&self, consumed: bool) -> Vec<String> {
        self.changesets
            .borrow()
            .iter()
            .filter(|(_, c)| c.consumed_for_prerelease.is_some() == consumed)
            .map(|(p, _)| p.clone())
            .collect()
    }
}

impl ChangesetReader for MockChangesetReader {
    fn read_changeset(&self, path: &str) -> Result<Changeset> {
        self.changesets
            .borrow()
            .iter()
            .find(|(p, _)| p == path)
            .map(|(_, c)| c.clone())
            .ok_or_else(|| OperationError::ChangesetFileRead { path: path.to_string() })
    }

    fn list_changesets(&self, _changeset_dir: &str) -> Result<Vec<String>> {
        Ok(self.listed(false))
    }

    fn list_consumed_changesets(&self, _changeset_dir: &str) -> Result<Vec<String>> {
        Ok(self.listed(true))
    }
}

impl ChangesetWriter for MockChangesetReader {
    fn write_changeset(&self, _changeset_dir: &str, _changeset: &Changeset) -> Result<String> {
        Ok("mock-changeset.md".to_string())
    }

    fn restore_changeset(&self, path: &str, changeset: &Changeset) -> Result<()> {
        let mut all = self.changesets.borrow_mut();
        match all.iter_mut().find(|(p, _)| p == path) {
            Some(entry) => entry.1 = changeset.clone(),
            None => all.push((path.to_string(), changeset.clone())),
        }
        Ok(())
    }

    fn filename_exists(&self, _changeset_dir: &str, _filename: &str) -> bool {
        false
    }

    fn mark_consumed_for_prerelease(&self, _changeset_dir: &str, paths: &[String], version: &Version) -> Result<()> {
        for (p, c) in self.changesets.borrow_mut().iter_mut() {
            if paths.contains(p) {
                c.consumed_for_prerelease = Some(version.to_string());
            }
        }
        Ok(())
    }

    fn clear_consumed_for_prerelease(&self, _changeset_dir: &str, paths: &[String]) -> Result<()> {
        for (p, c) in self.changesets.borrow_mut().iter_mut() {
            if paths.contains(p) {
                c.consumed_for_prerelease = None;
            }
        }
        Ok(())
    }
}

#[derive(Default)]
struct ManifestState {
    written_versions: Vec<(String, Version)>,
    dependency_version_updates: Vec<(String, String, Version)>,
    dependency_update_returns_true: bool,
    removed_workspace_version: bool,
    workspace_version: Option<Version>,
    written_metadata: Vec<(String, MetadataSection)>,
    inherited_paths: Vec<String>,
}

#[derive(Clone)]
struct MockManifestWriter {
    state: Rc<RefCell<ManifestState>>,
}

impl MockManifestWriter {
    fn new() -> Self {
        MockManifestWriter { state: Rc::new(RefCell::new(ManifestState::default())) }
    }

    fn with_inherited(self, paths: Vec<&str>) -> Self {
        self.state.borrow_mut().inherited_paths = paths.into_iter().map(str::to_string).collect();
        self
    }

    fn written_versions(&self) -> Vec<(String, Version)> {
        self.state.borrow().written_versions.clone()
    }

    fn workspace_version_removed(&self) -> bool {
        self.state.borrow().removed_workspace_version
    }
}

impl InheritedVersionChecker for MockManifestWriter {
    fn has_inherited_version(&self, manifest_path: &str) -> Result<bool> {
        Ok(self.state.borrow().inherited_paths.iter().any(|p| p == manifest_path))
    }
}

impl ManifestVersionWriter for MockManifestWriter {
    fn write_version(&self, manifest_path: &str, new_version: &Version) -> Result<()> {
        self.state.borrow_mut().written_versions.push((manifest_path.to_string(), new_version.clone()));
        Ok(())
    }

    fn verify_version(&self, _manifest_path: &str, _expected: &Version) -> Result<()> {
        Ok(())
    }
}

impl ManifestDependencyWriter for MockManifestWriter {
    fn update_dependency_version(&self, manifest_path: &str, dependency_name: &str, new_version: &Version) -> Result<bool> {
        let mut state = self.state.borrow_mut();
        let returns_true = state.dependency_update_returns_true;
        if returns_true {
            state.dependency_version_updates.push((manifest_path.to_string(), dependency_name.to_string(), new_version.clone()));
        }
        Ok(returns_true)
    }
}

impl WorkspaceVersionManager for MockManifestWriter {
    fn read_workspace_version(&self, _manifest_path: &str) -> Result<Option<Version>> {
        Ok(self.state.borrow().workspace_version.clone())
    }

    fn remove_workspace_version(&self, _manifest_path: &str) -> Result<()> {
        let mut state = self.state.borrow_mut();
        state.removed_workspace_version = true;
        state.workspace_version = None;
        Ok(())
    }

    fn write_workspace_version(&self, _manifest_path: &str, version: &Version) -> Result<()> {
        let mut state = self.state.borrow_mut();
        state.workspace_version = Some(version.clone());
        state.removed_workspace_version = false;
        Ok(())
    }
}

impl ManifestMetadataWriter for MockManifestWriter {
    fn write_metadata(&self, manifest_path: &str, section: MetadataSection, _config: &InitConfig) -> Result<()> {
        self.state.borrow_mut().written_metadata.push((manifest_path.to_string(), section));
        Ok(())
    }
}

impl ManifestWriter for MockManifestWriter {}

#[derive(Clone)]
struct MockChangelogWriter {
    written: Rc<RefCell<Vec<(String, VersionRelease)>>>,
    existing: Vec<String>,
}

impl MockChangelogWriter {
    fn new() -> Self {
        MockChangelogWriter { written: Rc::new(RefCell::new(Vec::new())), existing: Vec::new() }
    }

    /// A changelog that exists but cannot be read.
    fn with_existing_changelog(mut self, path: &str) -> Self {
        self.existing.push(path.to_string());
        self
    }

    fn written_releases(&self) -> Vec<(String, VersionRelease)> {
        self.written.borrow().clone()
    }
}

impl ChangelogWriter for MockChangelogWriter {
    fn write_release(
        &self,
        changelog_path: &str,
        release: &VersionRelease,
        _repo_info: Option<&RepositoryInfo>,
        _previous_version: Option<&str>,
    ) -> Result<ChangelogWriteResult> {
        let created = !self.existing.iter().any(|p| p == changelog_path);
        self.written.borrow_mut().push((changelog_path.to_string(), release.clone()));
        Ok(ChangelogWriteResult { path: changelog_path.to_string(), created })
    }

    fn changelog_exists(&self, path: &str) -> bool {
        self.existing.iter().any(|p| p == path)
    }

    fn read_changelog(&self, path: &str) -> Result<String> {
        Err(OperationError::ChangelogFileRead { path: path.to_string() })
    }

    fn restore_changelog(&self, _path: &str, _content: &str) -> Result<()> {
        Ok(())
    }

    fn delete_changelog(&self, _path: &str) -> Result<()> {
        Ok(())
    }
}

#[derive(Default)]
struct GitState {
    clean: bool,
    staged_files: Vec<String>,
    commits: Vec<String>,
    tags_created: Vec<(String, String)>,
    deleted_files: Vec<String>,
    deleted_tags: Vec<String>,
    reset_count: usize,
    fail_on_commit: bool,
    fail_on_create_tag: bool,
}

#[derive(Clone)]
struct MockGitProvider {
    state: Rc<RefCell<GitState>>,
}

impl MockGitProvider {
    fn new() -> Self {
        MockGitProvider { state: Rc::new(RefCell::new(GitState { clean: true, ..GitState::default() })) }
    }

    fn is_clean(self, clean: bool) -> Self {
        self.state.borrow_mut().clean = clean;
        self
    }

    fn set_fail_on_commit(&self, fail: bool) {
        self.state.borrow_mut().fail_on_commit = fail;
    }

    fn set_fail_on_create_tag(&self, fail: bool) {
        self.state.borrow_mut().fail_on_create_tag = fail;
    }

    fn staged_files(&self) -> Vec<String> {
        self.state.borrow().staged_files.clone()
    }

    fn commits(&self) -> Vec<String> {
        self.state.borrow().commits.clone()
    }

    fn tags_created(&self) -> Vec<(String, String)> {
        self.state.borrow().tags_created.clone()
    }

    fn deleted_files(&self) -> Vec<String> {
        self.state.borrow().deleted_files.clone()
    }

    fn reset_count(&self) -> usize {
        self.state.borrow().reset_count
    }
}

impl GitStatusProvider for MockGitProvider {
    fn is_working_tree_clean(&self, _project_root: &str) -> Result<bool> {
        Ok(self.state.borrow().clean)
    }

    fn current_branch(&self, _project_root: &str) -> Result<String> {
        Ok("main".to_string())
    }

    fn remote_url(&self, _project_root: &str) -> Result<Option<String>> {
        Ok(None)
    }
}

impl GitStagingProvider for MockGitProvider {
    fn stage_files(&self, _project_root: &str, paths: &[String]) -> Result<()> {
        self.state.borrow_mut().staged_files.extend(paths.iter().cloned());
        Ok(())
    }

    fn delete_files(&self, _project_root: &str, paths: &[String]) -> Result<()> {
        self.state.borrow_mut().deleted_files.extend(paths.iter().cloned());
        Ok(())
    }
}

impl GitCommitProvider for MockGitProvider {
    fn commit(&self, _project_root: &str, message: &str) -> Result<CommitInfo> {
        let mut state = self.state.borrow_mut();
        if state.fail_on_commit {
            return Err(OperationError::Provider { message: "commit failed".to_string() });
        }
        state.commits.push(message.to_string());
        Ok(CommitInfo { sha: "abc123def456".to_string(), message: message.to_string() })
    }

    fn reset_to_parent(&self, _project_root: &str) -> Result<()> {
        self.state.borrow_mut().reset_count += 1;
        Ok(())
    }
}

impl GitTagProvider for MockGitProvider {
    fn create_tag(&self, _project_root: &str, tag_name: &str, message: &str) -> Result<TagInfo> {
        let mut state = self.state.borrow_mut();
        if state.fail_on_create_tag {
            return Err(OperationError::Provider { message: "tag failed".to_string() });
        }
        state.tags_created.push((tag_name.to_string(), message.to_string()));
        Ok(TagInfo { name: tag_name.to_string(), target_sha: "abc123def456".to_string() })
    }

    fn delete_tag(&self, _project_root: &str, tag_name: &str) -> Result<bool> {
        self.state.borrow_mut().deleted_tags.push(tag_name.to_string());
        Ok(true)
    }
}

impl GitProvider for MockGitProvider {}

#[derive(Clone)]
struct MockReleaseStateIO {
    prerelease: Rc<RefCell<Option<PrereleaseState>>>,
    graduation: Rc<RefCell<Option<GraduationState>>>,
}

impl MockReleaseStateIO {
    fn new() -> Self {
        MockReleaseStateIO { prerelease: Rc::new(RefCell::new(None)), graduation: Rc::new(RefCell::new(None)) }
    }

    fn with_prerelease_state(self, state: PrereleaseState) -> Self {
        *self.prerelease.borrow_mut() = Some(state);
        self
    }

    fn with_graduation_state(self, state: GraduationState) -> Self {
        *self.graduation.borrow_mut() = Some(state);
        self
    }

    fn get_prerelease_state(&self) -> Option<PrereleaseState> {
        self.prerelease.borrow().clone()
    }

    fn get_graduation_state(&self) -> Option<GraduationState> {
        self.graduation.borrow().clone()
    }
}

impl ReleaseStateIO for MockReleaseStateIO {
    fn load_prerelease_state(&self, _dir: &str) -> Result<Option<PrereleaseState>> {
        Ok(self.prerelease.borrow().clone())
    }

    fn save_prerelease_state(&self, _dir: &str, state: &PrereleaseState) -> Result<()> {
        *self.prerelease.borrow_mut() = if state.is_empty() { None } else { Some(state.clone()) };
        Ok(())
    }

    fn load_graduation_state(&self, _dir: &str) -> Result<Option<GraduationState>> {
        Ok(self.graduation.borrow().clone())
    }

    fn save_graduation_state(&self, _dir: &str, state: &GraduationState) -> Result<()> {
        *self.graduation.borrow_mut() = if state.is_empty() { None } else { Some(state.clone()) };
        Ok(())
    }
}

type TestOperation =
    ReleaseOperation<MockProjectProvider, MockChangesetReader, MockManifestWriter, MockChangelogWriter, MockGitProvider, MockReleaseStateIO>;

struct Harness {
    operation: TestOperation,
    changesets: MockChangesetReader,
    manifests: MockManifestWriter,
    changelogs: MockChangelogWriter,
    git: MockGitProvider,
    state: MockReleaseStateIO,
}

fn harness_with(
    project_provider: MockProjectProvider,
    changesets: MockChangesetReader,
    manifests: MockManifestWriter,
    git: MockGitProvider,
    state: MockReleaseStateIO,
) -> Harness {
    let changelogs = MockChangelogWriter::new();
    let operation = ReleaseOperation::new(
        project_provider,
        changesets.clone(),
        manifests.clone(),
        changelogs.clone(),
        git.clone(),
        state.clone(),
    );
    Harness { operation, changesets, manifests, changelogs, git, state }
}

fn harness(project_provider: MockProjectProvider, changesets: MockChangesetReader) -> Harness {
    harness_with(project_provider, changesets, MockManifestWriter::new(), MockGitProvider::new(), MockReleaseStateIO::new())
}

fn default_input() -> ReleaseInput {
    ReleaseInputBuilder::default()
        .dry_run(true)
        .no_commit(true)
        .no_tags(true)
        .keep_changesets(true)
        .build()
        .expect("all fields have defaults")
}

fn quiet_input() -> ReleaseInput {
    ReleaseInputBuilder::default().no_commit(true).no_tags(true).keep_changesets(true).build().expect("all fields have defaults")
}

fn expect_dry_run(outcome: ReleaseOutcome) -> changeset_operations::release_types::ReleaseOutput {
    match outcome {
        ReleaseOutcome::DryRun(output) => output,
        other => panic!("expected DryRun outcome, got {other:?}"),
    }
}

fn expect_executed(outcome: ReleaseOutcome) -> changeset_operations::release_types::ReleaseOutput {
    match outcome {
        ReleaseOutcome::Executed(output) => output,
        other => panic!("expected Executed outcome, got {other:?}"),
    }
}

fn path(dir: &str, file: &str) -> String {
    format!("{dir}/{file}")
}

fn scenario_returns_no_changesets_when_empty() {
    let h = harness(MockProjectProvider::single_package("my-crate", "1.0.0"), MockChangesetReader::new());
    let result = h.operation.execute("/any", &default_input()).expect("execute failed");
    assert!(matches!(result, ReleaseOutcome::NoChangesets));
}

fn scenario_calculates_single_patch_bump(dir: &str) {
    let changesets =
        MockChangesetReader::new().with_changeset(&path(dir, "fix.md"), make_changeset("my-crate", BumpType::Patch, "Fix a bug"));
    let h = harness(MockProjectProvider::single_package("my-crate", "1.0.0"), changesets);
    let output = expect_dry_run(h.operation.execute("/any", &default_input()).expect("execute failed"));
    assert_eq!(output.planned_releases().len(), 1);
    let release = &output.planned_releases()[0];
    assert_eq!(release.name(), "my-crate");
    assert_eq!(release.current_version().to_string(), "1.0.0");
    assert_eq!(release.new_version().to_string(), "1.0.1");
    assert_eq!(release.bump_type(), BumpType::Patch);
}

fn scenario_takes_maximum_bump_from_multiple_changesets(dir: &str) {
    let changesets = MockChangesetReader::new().with_changesets(vec![
        (&path(dir, "fix.md"), make_changeset("my-crate", BumpType::Patch, "Fix bug")),
        (&path(dir, "feature.md"), make_changeset("my-crate", BumpType::Minor, "Add feature")),
    ]);
    let h = harness(MockProjectProvider::single_package("my-crate", "1.2.3"), changesets);
    let output = expect_dry_run(h.operation.execute("/any", &default_input()).expect("execute failed"));
    assert_eq!(output.planned_releases().len(), 1);
    let release = &output.planned_releases()[0];
    assert_eq!(release.new_version().to_string(), "1.3.0");
    assert_eq!(release.bump_type(), BumpType::Minor);
}

fn scenario_handles_workspace_with_multiple_packages(dir: &str) {
    let changesets = MockChangesetReader::new().with_changesets(vec![
        (&path(dir, "feature-a.md"), make_changeset("crate-a", BumpType::Minor, "Add feature to A")),
        (&path(dir, "breaking-b.md"), make_changeset("crate-b", BumpType::Major, "Breaking change in B")),
    ]);
    let h = harness(MockProjectProvider::workspace(vec![("crate-a", "1.0.0"), ("crate-b", "2.0.0")]), changesets);
    let output = expect_dry_run(h.operation.execute("/any", &default_input()).expect("execute failed"));
    assert_eq!(output.planned_releases().len(), 2);
    assert!(output.unchanged_packages().is_empty());
    let crate_a = output.planned_releases().iter().find(|r| r.name() == "crate-a").expect("crate-a should be in releases");
    assert_eq!(crate_a.new_version().to_string(), "1.1.0");
    let crate_b = output.planned_releases().iter().find(|r| r.name() == "crate-b").expect("crate-b should be in releases");
    assert_eq!(crate_b.new_version().to_string(), "3.0.0");
}

fn scenario_identifies_unchanged_packages(dir: &str) {
    let changesets =
        MockChangesetReader::new().with_changeset(&path(dir, "fix.md"), make_changeset("crate-a", BumpType::Patch, "Fix crate-a"));
    let h = harness(
        MockProjectProvider::workspace(vec![("crate-a", "1.0.0"), ("crate-b", "2.0.0"), ("crate-c", "3.0.0")]),
        changesets,
    );
    let output = expect_dry_run(h.operation.execute("/any", &default_input()).expect("execute failed"));
    assert_eq!(output.planned_releases().len(), 1);
    assert_eq!(output.unchanged_packages().len(), 2);
    assert!(output.unchanged_packages().contains(&"crate-b".to_string()));
    assert!(output.unchanged_packages().contains(&"crate-c".to_string()));
}

fn scenario_tracks_consumed_changeset_files(dir: &str) {
    let changesets = MockChangesetReader::new().with_changesets(vec![
        (&path(dir, "fix1.md"), make_changeset("my-crate", BumpType::Patch, "Fix 1")),
        (&path(dir, "fix2.md"), make_changeset("my-crate", BumpType::Patch, "Fix 2")),
    ]);
    let h = harness(MockProjectProvider::single_package("my-crate", "1.0.0"), changesets);
    let output = expect_dry_run(h.operation.execute("/any", &default_input()).expect("execute failed"));
    assert_eq!(output.changesets_consumed().len(), 2);
}

fn scenario_returns_executed_when_not_dry_run(dir: &str) {
    let changesets = MockChangesetReader::new().with_changeset(&path(dir, "fix.md"), make_changeset("my-crate", BumpType::Patch, "Fix"));
    let h = harness(MockProjectProvider::single_package("my-crate", "1.0.0"), changesets);
    let result = h.operation.execute("/any", &quiet_input()).expect("execute failed");
    assert!(matches!(result, ReleaseOutcome::Executed(_)));
}

fn scenario_writes_versions_when_not_dry_run(dir: &str) {
    let changesets =
        MockChangesetReader::new().with_changeset(&path(dir, "feature.md"), make_changeset("my-crate", BumpType::Minor, "Add feature"));
    let h = harness(MockProjectProvider::single_package("my-crate", "1.0.0"), changesets);
    let output = expect_executed(h.operation.execute("/any", &quiet_input()).expect("execute failed"));
    assert_eq!(output.planned_releases().len(), 1);
    assert_eq!(output.planned_releases()[0].new_version().to_string(), "1.1.0");
    let written = h.manifests.written_versions();
    assert_eq!(written.len(), 1);
    assert_eq!(written[0].0, "/mock/project/Cargo.toml");
    assert_eq!(written[0].1.to_string(), "1.1.0");
}

fn scenario_returns_error_when_inherited_without_convert_flag(dir: &str) {
    let changesets = MockChangesetReader::new().with_changeset(&path(dir, "fix.md"), make_changeset("my-crate", BumpType::Patch, "Fix"));
    let h = harness_with(
        MockProjectProvider::single_package("my-crate", "1.0.0"),
        changesets,
        MockManifestWriter::new().with_inherited(vec!["/mock/project/Cargo.toml"]),
        MockGitProvider::new(),
        MockReleaseStateIO::new(),
    );
    let result = h.operation.execute("/any", &quiet_input());
    assert!(matches!(result, Err(OperationError::InheritedVersionsRequireConvert { .. })));
}

fn convert_input() -> ReleaseInput {
    ReleaseInputBuilder::default()
        .convert_inherited(true)
        .no_commit(true)
        .no_tags(true)
        .keep_changesets(true)
        .build()
        .expect("all fields have defaults")
}

fn scenario_allows_inherited_with_convert_flag(dir: &str) {
    let changesets = MockChangesetReader::new().with_changeset(&path(dir, "fix.md"), make_changeset("my-crate", BumpType::Patch, "Fix"));
    let h = harness_with(
        MockProjectProvider::single_package("my-crate", "1.0.0"),
        changesets,
        MockManifestWriter::new().with_inherited(vec!["/mock/project/Cargo.toml"]),
        MockGitProvider::new(),
        MockReleaseStateIO::new(),
    );
    assert!(h.operation.execute("/any", &convert_input()).is_ok());
}

fn scenario_removes_workspace_version_when_converting_inherited(dir: &str) {
    let changesets = MockChangesetReader::new().with_changeset(&path(dir, "fix.md"), make_changeset("my-crate", BumpType::Patch, "Fix"));
    let h = harness_with(
        MockProjectProvider::single_package("my-crate", "1.0.0"),
        changesets,
        MockManifestWriter::new().with_inherited(vec!["/mock/project/Cargo.toml"]),
        MockGitProvider::new(),
        MockReleaseStateIO::new(),
    );
    expect_executed(h.operation.execute("/any", &convert_input()).expect("execute failed"));
    assert!(h.manifests.workspace_version_removed(), "workspace version should be removed");
}

fn scenario_errors_on_dirty_working_tree_when_commit_enabled(dir: &str) {
    let changesets = MockChangesetReader::new().with_changeset(&path(dir, "fix.md"), make_changeset("my-crate", BumpType::Patch, "Fix"));
    let h = harness_with(
        MockProjectProvider::single_package("my-crate", "1.0.0"),
        changesets,
        MockManifestWriter::new(),
        MockGitProvider::new().is_clean(false),
        MockReleaseStateIO::new(),
    );
    let input = ReleaseInputBuilder::default().no_tags(true).keep_changesets(true).build().expect("all fields have defaults");
    let result = h.operation.execute("/any", &input);
    assert!(matches!(result, Err(OperationError::DirtyWorkingTree)));
}

fn scenario_allows_dirty_tree_with_no_commit(dir: &str) {
    let changesets = MockChangesetReader::new().with_changeset(&path(dir, "fix.md"), make_changeset("my-crate", BumpType::Patch, "Fix"));
    let h = harness_with(
        MockProjectProvider::single_package("my-crate", "1.0.0"),
        changesets,
        MockManifestWriter::new(),
        MockGitProvider::new().is_clean(false),
        MockReleaseStateIO::new(),
    );
    assert!(h.operation.execute("/any", &quiet_input()).is_ok());
}

fn scenario_allows_dirty_tree_in_dry_run(dir: &str) {
    let changesets = MockChangesetReader::new().with_changeset(&path(dir, "fix.md"), make_changeset("my-crate", BumpType::Patch, "Fix"));
    let h = harness_with(
        MockProjectProvider::single_package("my-crate", "1.0.0"),
        changesets,
        MockManifestWriter::new(),
        MockGitProvider::new().is_clean(false),
        MockReleaseStateIO::new(),
    );
    let input = ReleaseInputBuilder::default().dry_run(true).build().expect("all fields have defaults");
    assert!(h.operation.execute("/any", &input).is_ok());
}

fn scenario_commit_message_uses_template(dir: &str) {
    let changesets =
        MockChangesetReader::new().with_changeset(&path(dir, "feature.md"), make_changeset("my-crate", BumpType::Minor, "Add feature"));
    let h = harness(MockProjectProvider::single_package("my-crate", "1.0.0"), changesets);
    let input = ReleaseInputBuilder::default().no_tags(true).keep_changesets(true).build().expect("all fields have defaults");
    let output = expect_executed(h.operation.execute("/any", &input).expect("execute failed"));
    let git_result = output.git_result().expect("should have git result");
    let commit = git_result.commit().expect("should have commit");
    assert!(commit.message().contains("my-crate@v1.1.0"));
    assert!(commit.message().contains("my-crate 1.0.0 -> 1.1.0"));
}

fn scenario_workspace_tags_use_crate_prefix(dir: &str) {
    let changesets = MockChangesetReader::new().with_changesets(vec![
        (&path(dir, "fix-a.md"), make_changeset("crate-a", BumpType::Patch, "Fix A")),
        (&path(dir, "fix-b.md"), make_changeset("crate-b", BumpType::Patch, "Fix B")),
    ]);
    let h = harness(MockProjectProvider::workspace(vec![("crate-a", "1.0.0"), ("crate-b", "2.0.0")]), changesets);
    let input = ReleaseInputBuilder::default().keep_changesets(true).build().expect("all fields have defaults");
    let output = expect_executed(h.operation.execute("/any", &input).expect("execute failed"));
    let git_result = output.git_result().expect("should have git result");
    assert_eq!(git_result.tags_created().len(), 2);
    let tag_names: Vec<_> = git_result.tags_created().iter().map(|t| t.name().as_str()).collect();
    assert!(tag_names.contains(&"crate-a@v1.0.1"));
    assert!(tag_names.contains(&"crate-b@v2.0.1"));
}

fn scenario_no_tags_skips_tag_creation(dir: &str) {
    let changesets = MockChangesetReader::new().with_changeset(&path(dir, "fix.md"), make_changeset("my-crate", BumpType::Patch, "Fix"));
    let h = harness(MockProjectProvider::single_package("my-crate", "1.0.0"), changesets);
    let input = ReleaseInputBuilder::default().no_tags(true).keep_changesets(true).build().expect("all fields have defaults");
    let output = expect_executed(h.operation.execute("/any", &input).expect("execute failed"));
    let git_result = output.git_result().expect("should have git result");
    assert!(git_result.tags_created().is_empty());
    assert!(git_result.commit().is_some());
}

fn scenario_single_package_uses_version_only_tag_format(dir: &str) {
    let changesets = MockChangesetReader::new().with_changeset(&path(dir, "fix.md"), make_changeset("my-crate", BumpType::Patch, "Fix"));
    let h = harness(MockProjectProvider::single_package("my-crate", "1.0.0"), changesets);
    let input = ReleaseInputBuilder::default().keep_changesets(true).build().expect("all fields have defaults");
    let output = expect_executed(h.operation.execute("/any", &input).expect("execute failed"));
    let git_result = output.git_result().expect("should have git result");
    assert_eq!(git_result.tags_created().len(), 1);
    assert_eq!(
        git_result.tags_created()[0].name(),
        "v1.0.1",
        "single package should use version-only tag format without crate prefix"
    );
}

fn scenario_keep_changesets_false_populates_deleted_list(dir: &str) {
    let changesets = MockChangesetReader::new().with_changeset(&path(dir, "fix.md"), make_changeset("my-crate", BumpType::Patch, "Fix"));
    let h = harness(MockProjectProvider::single_package("my-crate", "1.0.0"), changesets);
    let input = ReleaseInputBuilder::default().no_commit(true).no_tags(true).build().expect("all fields have defaults");
    let output = expect_executed(h.operation.execute("/any", &input).expect("execute failed"));
    let git_result = output.git_result().expect("should have git result");
    assert_eq!(git_result.changesets_deleted().len(), 1);
    assert_eq!(git_result.changesets_deleted()[0], path(dir, "fix.md"));
}

fn scenario_keep_changesets_true_leaves_deleted_list_empty(dir: &str) {
    let changesets = MockChangesetReader::new().with_changeset(&path(dir, "fix.md"), make_changeset("my-crate", BumpType::Patch, "Fix"));
    let h = harness(MockProjectProvider::single_package("my-crate", "1.0.0"), changesets);
    let output = expect_executed(h.operation.execute("/any", &quiet_input()).expect("execute failed"));
    let git_result = output.git_result().expect("should have git result");
    assert!(git_result.changesets_deleted().is_empty(), "changesets_deleted should be empty when keep_changesets is true");
}

fn scenario_deleted_changesets_are_staged_for_commit(dir: &str) {
    let changesets = MockChangesetReader::new().with_changesets(vec![
        (&path(dir, "fix1.md"), make_changeset("my-crate", BumpType::Patch, "Fix 1")),
        (&path(dir, "fix2.md"), make_changeset("my-crate", BumpType::Patch, "Fix 2")),
    ]);
    let h = harness(MockProjectProvider::single_package("my-crate", "1.0.0"), changesets);
    let input = ReleaseInputBuilder::default().no_tags(true).build().expect("all fields have defaults");
    let _ = h.operation.execute("/any", &input).expect("execute failed");
    let staged = h.git.staged_files();
    assert!(staged.contains(&path(dir, "fix1.md")), "fix1.md should be staged");
    assert!(staged.contains(&path(dir, "fix2.md")), "fix2.md should be staged");
}

fn scenario_changes_in_body_false_produces_title_only_commit(dir: &str) {
    let mut config = RootChangesetConfig::default();
    config.git_config.changes_in_body = false;
    let changesets =
        MockChangesetReader::new().with_changeset(&path(dir, "feature.md"), make_changeset("my-crate", BumpType::Minor, "Add feature"));
    let h = harness(MockProjectProvider::single_package("my-crate", "1.0.0").with_root_config(config), changesets);
    let input = ReleaseInputBuilder::default().no_tags(true).keep_changesets(true).build().expect("all fields have defaults");
    let output = expect_executed(h.operation.execute("/any", &input).expect("execute failed"));
    let git_result = output.git_result().expect("should have git result");
    let commit = git_result.commit().expect("should have commit");
    assert!(
        !commit.message().contains('\n'),
        "commit message should be title-only without newlines, got: {}",
        commit.message()
    );
    assert!(commit.message().contains("my-crate@v1.1.0"), "commit message should contain version info");
}

fn prerelease_input(spec: PrereleaseSpec, force: bool) -> ReleaseInput {
    ReleaseInputBuilder::default()
        .no_commit(true)
        .no_tags(true)
        .keep_changesets(true)
        .force(force)
        .global_prerelease(Some(spec))
        .build()
        .expect("all fields have defaults")
}

fn scenario_prerelease_marks_changesets_as_consumed(dir: &str) {
    let changeset_path = path(dir, "fix.md");
    let changesets = MockChangesetReader::new().with_changeset(&changeset_path, make_changeset("my-crate", BumpType::Patch, "Fix bug"));
    let h = harness(MockProjectProvider::single_package("my-crate", "1.0.0"), changesets);
    let result = h.operation.execute("/any", &prerelease_input(PrereleaseSpec::Alpha, false)).expect("execute should succeed");
    assert!(matches!(result, ReleaseOutcome::Executed(_)));
    let consumed_status = h.changesets.get_consumed_status(&changeset_path);
    assert!(consumed_status.is_some(), "changeset should be marked as consumed for prerelease");
    assert!(consumed_status.expect("checked above").contains("alpha"), "consumed version should contain alpha prerelease tag");
}

fn scenario_prerelease_increment_requires_changesets_or_force() {
    let h = harness(MockProjectProvider::single_package("my-crate", "1.0.0"), MockChangesetReader::new());
    let result = h.operation.execute("/any", &prerelease_input(PrereleaseSpec::Alpha, false));
    assert!(
        matches!(result, Err(OperationError::NoChangesetsWithoutForce)),
        "should error without changesets and without force flag"
    );
}

fn scenario_prerelease_with_force_returns_no_changesets() {
    let h = harness(MockProjectProvider::single_package("my-crate", "1.0.0"), MockChangesetReader::new());
    let result =
        h.operation.execute("/any", &prerelease_input(PrereleaseSpec::Alpha, true)).expect("execute should succeed with force flag");
    assert!(
        matches!(result, ReleaseOutcome::NoChangesets),
        "should return NoChangesets when force is set but no changesets exist"
    );
}

fn scenario_graduation_clears_consumed_flag(dir: &str) {
    let consumed_path = path(dir, "consumed.md");
    let changesets = MockChangesetReader::new().with_consumed_changeset(
        &consumed_path,
        make_changeset("my-crate", BumpType::Patch, "Fix bug"),
        "1.0.1-alpha.1".to_string(),
    );
    let h = harness(MockProjectProvider::single_package("my-crate", "1.0.1-alpha.1"), changesets);
    let result = h.operation.execute("/any", &quiet_input()).expect("graduation should succeed");
    assert!(matches!(result, ReleaseOutcome::Executed(_)));
    assert!(h.changesets.get_consumed_status(&consumed_path).is_none(), "consumed flag should be cleared after graduation");
}

fn scenario_graduation_aggregates_consumed_changesets_in_changelog(dir: &str) {
    let changesets = MockChangesetReader::new()
        .with_consumed_changeset(
            &path(dir, "fix1.md"),
            make_changeset("my-crate", BumpType::Patch, "Fix bug one"),
            "1.0.1-alpha.1".to_string(),
        )
        .with_consumed_changeset(
            &path(dir, "fix2.md"),
            make_changeset("my-crate", BumpType::Patch, "Fix bug two"),
            "1.0.1-alpha.1".to_string(),
        );
    let h = harness(MockProjectProvider::single_package("my-crate", "1.0.1-alpha.1"), changesets);
    let result = h.operation.execute("/any", &quiet_input()).expect("graduation should succeed");
    assert!(matches!(result, ReleaseOutcome::Executed(_)));
    let written = h.changelogs.written_releases();
    assert_eq!(written.len(), 1, "should write one changelog release");
    let (_, release) = &written[0];
    assert_eq!(release.entries.len(), 2, "changelog should contain entries from both consumed changesets");
}

fn scenario_consumed_changesets_excluded_from_normal_release(dir: &str) {
    let unconsumed_path = path(dir, "unconsumed.md");
    let changesets = MockChangesetReader::new()
        .with_changeset(&unconsumed_path, make_changeset("my-crate", BumpType::Minor, "Add feature"))
        .with_consumed_changeset(
            &path(dir, "consumed.md"),
            make_changeset("my-crate", BumpType::Patch, "Fix from prerelease"),
            "1.0.1-alpha.1".to_string(),
        );
    let h = harness(MockProjectProvider::single_package("my-crate", "1.0.0"), changesets);
    let output = expect_executed(h.operation.execute("/any", &quiet_input()).expect("release should succeed"));
    assert_eq!(output.planned_releases().len(), 1);
    assert_eq!(
        output.planned_releases()[0].new_version().to_string(),
        "1.1.0",
        "should apply minor bump from unconsumed changeset only"
    );
    assert_eq!(output.changesets_consumed().len(), 1, "only unconsumed changeset should be in consumed list");
    assert!(output.changesets_consumed().contains(&unconsumed_path), "unconsumed changeset should be processed");
}

fn scenario_prerelease_with_different_tag_resets_number(dir: &str) {
    let changesets =
        MockChangesetReader::new().with_changeset(&path(dir, "feature.md"), make_changeset("my-crate", BumpType::Patch, "Another fix"));
    let h = harness(MockProjectProvider::single_package("my-crate", "1.0.1-alpha.2"), changesets);
    let output = expect_executed(
        h.operation
            .execute("/any", &prerelease_input(PrereleaseSpec::Beta, false))
            .expect("prerelease with different tag should succeed"),
    );
    assert_eq!(output.planned_releases().len(), 1);
    assert_eq!(
        output.planned_releases()[0].new_version().to_string(),
        "1.0.1-beta.1",
        "switching prerelease tag should reset number to 1"
    );
}

const NESTED_DIR: &str = ".changeset/changesets";
const FLAT_DIR: &str = ".changeset";

#[test]
fn operation_returns_no_changesets_when_empty() {
    scenario_returns_no_changesets_when_empty();
}

#[test]
fn release_returns_no_changesets_when_empty() {
    scenario_returns_no_changesets_when_empty();
}

#[test]
fn operation_calculates_single_patch_bump() {
    scenario_calculates_single_patch_bump(NESTED_DIR);
}

#[test]
fn release_calculates_single_patch_bump() {
    scenario_calculates_single_patch_bump(FLAT_DIR);
}

#[test]
fn operation_takes_maximum_bump_from_multiple_changesets() {
    scenario_takes_maximum_bump_from_multiple_changesets(NESTED_DIR);
}

#[test]
fn release_takes_maximum_bump_from_multiple_changesets() {
    scenario_takes_maximum_bump_from_multiple_changesets(FLAT_DIR);
}

#[test]
fn operation_handles_workspace_with_multiple_packages() {
    scenario_handles_workspace_with_multiple_packages(NESTED_DIR);
}

#[test]
fn release_handles_workspace_with_multiple_packages() {
    scenario_handles_workspace_with_multiple_packages(FLAT_DIR);
}

#[test]
fn operation_identifies_unchanged_packages() {
    scenario_identifies_unchanged_packages(NESTED_DIR);
}

#[test]
fn release_identifies_unchanged_packages() {
    scenario_identifies_unchanged_packages(FLAT_DIR);
}

#[test]
fn operation_tracks_consumed_changeset_files() {
    scenario_tracks_consumed_changeset_files(NESTED_DIR);
}

#[test]
fn release_tracks_consumed_changeset_files() {
    scenario_tracks_consumed_changeset_files(FLAT_DIR);
}

#[test]
fn operation_returns_executed_when_not_dry_run() {
    scenario_returns_executed_when_not_dry_run(NESTED_DIR);
}

#[test]
fn release_returns_executed_when_not_dry_run() {
    scenario_returns_executed_when_not_dry_run(FLAT_DIR);
}

#[test]
fn operation_writes_versions_when_not_dry_run() {
    scenario_writes_versions_when_not_dry_run(NESTED_DIR);
}

#[test]
fn release_writes_versions_when_not_dry_run() {
    scenario_writes_versions_when_not_dry_run(FLAT_DIR);
}

#[test]
fn operation_returns_error_when_inherited_without_convert_flag() {
    scenario_returns_error_when_inherited_without_convert_flag(NESTED_DIR);
}

#[test]
fn release_returns_error_when_inherited_without_convert_flag() {
    scenario_returns_error_when_inherited_without_convert_flag(FLAT_DIR);
}

#[test]
fn operation_allows_inherited_with_convert_flag() {
    scenario_allows_inherited_with_convert_flag(NESTED_DIR);
}

#[test]
fn release_allows_inherited_with_convert_flag() {
    scenario_allows_inherited_with_convert_flag(FLAT_DIR);
}

#[test]
fn operation_removes_workspace_version_when_converting_inherited() {
    scenario_removes_workspace_version_when_converting_inherited(NESTED_DIR);
}

#[test]
fn release_removes_workspace_version_when_converting_inherited() {
    scenario_removes_workspace_version_when_converting_inherited(FLAT_DIR);
}

#[test]
fn operation_errors_on_dirty_working_tree_when_commit_enabled() {
    scenario_errors_on_dirty_working_tree_when_commit_enabled(NESTED_DIR);
}

#[test]
fn release_errors_on_dirty_working_tree_when_commit_enabled() {
    scenario_errors_on_dirty_working_tree_when_commit_enabled(FLAT_DIR);
}

#[test]
fn operation_allows_dirty_tree_with_no_commit() {
    scenario_allows_dirty_tree_with_no_commit(NESTED_DIR);
}

#[test]
fn release_allows_dirty_tree_with_no_commit() {
    scenario_allows_dirty_tree_with_no_commit(FLAT_DIR);
}

#[test]
fn operation_allows_dirty_tree_in_dry_run() {
    scenario_allows_dirty_tree_in_dry_run(NESTED_DIR);
}

#[test]
fn release_allows_dirty_tree_in_dry_run() {
    scenario_allows_dirty_tree_in_dry_run(FLAT_DIR);
}

#[test]
fn operation_commit_message_uses_template() {
    scenario_commit_message_uses_template(NESTED_DIR);
}

#[test]
fn release_commit_message_uses_template() {
    scenario_commit_message_uses_template(FLAT_DIR);
}

#[test]
fn operation_workspace_tags_use_crate_prefix() {
    scenario_workspace_tags_use_crate_prefix(NESTED_DIR);
}

#[test]
fn release_workspace_tags_use_crate_prefix() {
    scenario_workspace_tags_use_crate_prefix(FLAT_DIR);
}

#[test]
fn operation_no_tags_skips_tag_creation() {
    scenario_no_tags_skips_tag_creation(NESTED_DIR);
}

#[test]
fn release_no_tags_skips_tag_creation() {
    scenario_no_tags_skips_tag_creation(FLAT_DIR);
}

#[test]
fn operation_single_package_uses_version_only_tag_format() {
    scenario_single_package_uses_version_only_tag_format(NESTED_DIR);
}

#[test]
fn release_single_package_uses_version_only_tag_format() {
    scenario_single_package_uses_version_only_tag_format(FLAT_DIR);
}

#[test]
fn operation_keep_changesets_false_populates_deleted_list() {
    scenario_keep_changesets_false_populates_deleted_list(NESTED_DIR);
}

#[test]
fn release_keep_changesets_false_populates_deleted_list() {
    scenario_keep_changesets_false_populates_deleted_list(FLAT_DIR);
}

#[test]
fn operation_keep_changesets_true_leaves_deleted_list_empty() {
    scenario_keep_changesets_true_leaves_deleted_list_empty(NESTED_DIR);
}

#[test]
fn release_keep_changesets_true_leaves_deleted_list_empty() {
    scenario_keep_changesets_true_leaves_deleted_list_empty(FLAT_DIR);
}

#[test]
fn operation_deleted_changesets_are_staged_for_commit() {
    scenario_deleted_changesets_are_staged_for_commit(NESTED_DIR);
}

#[test]
fn release_deleted_changesets_are_staged_for_commit() {
    scenario_deleted_changesets_are_staged_for_commit(FLAT_DIR);
}

#[test]
fn operation_changes_in_body_false_produces_title_only_commit() {
    scenario_changes_in_body_false_produces_title_only_commit(NESTED_DIR);
}

#[test]
fn release_changes_in_body_false_produces_title_only_commit() {
    scenario_changes_in_body_false_produces_title_only_commit(FLAT_DIR);
}

#[test]
fn prerelease_marks_changesets_as_consumed() {
    scenario_prerelease_marks_changesets_as_consumed(NESTED_DIR);
}

#[test]
fn test_prerelease_marks_changesets_as_consumed() {
    scenario_prerelease_marks_changesets_as_consumed(FLAT_DIR);
}

#[test]
fn prerelease_increment_requires_changesets_or_force() {
    scenario_prerelease_increment_requires_changesets_or_force();
}

#[test]
fn test_prerelease_increment_requires_changesets_or_force() {
    scenario_prerelease_increment_requires_changesets_or_force();
}

#[test]
fn prerelease_with_force_returns_no_changesets() {
    scenario_prerelease_with_force_returns_no_changesets();
}

#[test]
fn test_prerelease_with_force_returns_no_changesets() {
    scenario_prerelease_with_force_returns_no_changesets();
}

#[test]
fn graduation_clears_consumed_flag() {
    scenario_graduation_clears_consumed_flag(NESTED_DIR);
}

#[test]
fn test_graduation_clears_consumed_flag() {
    scenario_graduation_clears_consumed_flag(FLAT_DIR);
}

#[test]
fn graduation_aggregates_consumed_changesets_in_changelog() {
    scenario_graduation_aggregates_consumed_changesets_in_changelog(NESTED_DIR);
}

#[test]
fn test_graduation_aggregates_consumed_changesets_in_changelog() {
    scenario_graduation_aggregates_consumed_changesets_in_changelog(FLAT_DIR);
}

#[test]
fn consumed_changesets_excluded_from_normal_release() {
    scenario_consumed_changesets_excluded_from_normal_release(NESTED_DIR);
}

#[test]
fn test_consumed_changesets_excluded_from_normal_release() {
    scenario_consumed_changesets_excluded_from_normal_release(FLAT_DIR);
}

#[test]
fn prerelease_with_different_tag_resets_number() {
    scenario_prerelease_with_different_tag_resets_number(NESTED_DIR);
}

#[test]
fn test_prerelease_with_different_tag_resets_number() {
    scenario_prerelease_with_different_tag_resets_number(FLAT_DIR);
}

#[test]
fn zero_graduation_deletes_changesets() {
    let changeset_path = path(NESTED_DIR, "feature.md");
    let changesets = MockChangesetReader::new().with_changeset(&changeset_path, make_changeset("my-crate", BumpType::Minor, "Add feature"));
    let h = harness(MockProjectProvider::single_package("my-crate", "0.5.0"), changesets);
    let input =
        ReleaseInputBuilder::default().no_commit(true).no_tags(true).graduate_all(true).build().expect("all fields have defaults");
    let output = expect_executed(h.operation.execute("/any", &input).expect("zero graduation should succeed"));
    assert_eq!(output.planned_releases()[0].new_version().to_string(), "1.0.0", "zero graduation should bump to 1.0.0");
    let git_result = output.git_result().expect("should have git result");
    assert_eq!(git_result.changesets_deleted().len(), 1, "zero graduation should delete changesets");
    assert!(git_result.changesets_deleted().contains(&changeset_path), "deleted list should contain the changeset file");
    assert!(h.git.deleted_files().contains(&changeset_path), "changeset file should be deleted via git provider");
}

#[test]
fn prerelease_graduation_preserves_changesets() {
    let changesets = MockChangesetReader::new().with_consumed_changeset(
        &path(NESTED_DIR, "consumed.md"),
        make_changeset("my-crate", BumpType::Patch, "Fix bug"),
        "1.0.1-alpha.1".to_string(),
    );
    let h = harness(MockProjectProvider::single_package("my-crate", "1.0.1-alpha.1"), changesets);
    let input = ReleaseInputBuilder::default().no_commit(true).no_tags(true).build().expect("all fields have defaults");
    let output = expect_executed(h.operation.execute("/any", &input).expect("prerelease graduation should succeed"));
    assert_eq!(
        output.planned_releases()[0].new_version().to_string(),
        "1.0.1",
        "prerelease graduation should remove prerelease suffix"
    );
    let git_result = output.git_result().expect("should have git result");
    assert!(
        git_result.changesets_deleted().is_empty(),
        "prerelease graduation should NOT delete changesets (they were already consumed)"
    );
    assert!(h.git.deleted_files().is_empty(), "no files should be deleted during prerelease graduation");
}

#[test]
fn release_respects_prerelease_toml_state() {
    let changesets = MockChangesetReader::new().with_changeset(&path(NESTED_DIR, "fix.md"), make_changeset("my-crate", BumpType::Patch, "Fix bug"));
    let mut prerelease_state = PrereleaseState::new();
    prerelease_state.insert("my-crate".to_string(), "alpha".to_string());
    let h = harness_with(
        MockProjectProvider::single_package("my-crate", "1.0.0"),
        changesets,
        MockManifestWriter::new(),
        MockGitProvider::new(),
        MockReleaseStateIO::new().with_prerelease_state(prerelease_state),
    );
    let output = expect_executed(h.operation.execute("/any", &quiet_input()).expect("release should succeed"));
    assert_eq!(output.planned_releases().len(), 1);
    assert_eq!(output.planned_releases()[0].new_version().to_string(), "1.0.1-alpha.1", "should apply prerelease from TOML state");
}

#[test]
fn cli_prerelease_overrides_toml_state() {
    let changesets = MockChangesetReader::new().with_changeset(&path(NESTED_DIR, "fix.md"), make_changeset("my-crate", BumpType::Patch, "Fix bug"));
    let mut prerelease_state = PrereleaseState::new();
    prerelease_state.insert("my-crate".to_string(), "alpha".to_string());
    let h = harness_with(
        MockProjectProvider::single_package("my-crate", "1.0.0"),
        changesets,
        MockManifestWriter::new(),
        MockGitProvider::new(),
        MockReleaseStateIO::new().with_prerelease_state(prerelease_state),
    );
    let output = expect_executed(h.operation.execute("/any", &prerelease_input(PrereleaseSpec::Beta, false)).expect("release should succeed"));
    assert_eq!(output.planned_releases().len(), 1);
    assert_eq!(output.planned_releases()[0].new_version().to_string(), "1.0.1-beta.1", "CLI prerelease should override TOML state");
}

#[test]
fn graduation_state_updates_after_release() {
    let changesets =
        MockChangesetReader::new().with_changeset(&path(NESTED_DIR, "feature.md"), make_changeset("my-crate", BumpType::Minor, "Add feature"));
    let mut graduation_state = GraduationState::new();
    graduation_state.add("my-crate".to_string());
    let h = harness_with(
        MockProjectProvider::single_package("my-crate", "0.5.0"),
        changesets,
        MockManifestWriter::new(),
        MockGitProvider::new(),
        MockReleaseStateIO::new().with_graduation_state(graduation_state),
    );
    let output = expect_executed(h.operation.execute("/any", &quiet_input()).expect("release should succeed"));
    assert_eq!(output.planned_releases().len(), 1);
    assert_eq!(output.planned_releases()[0].new_version().to_string(), "1.0.0", "should graduate from 0.x to 1.0.0");
    let updated_state = h.state.get_graduation_state();
    assert!(
        updated_state.is_none() || !updated_state.expect("state").contains("my-crate"),
        "graduated package should be removed from graduation state"
    );
}

#[test]
fn graduate_all_flag_graduates_zero_versions() {
    let changesets = MockChangesetReader::new().with_changeset(&path(NESTED_DIR, "fix.md"), make_changeset("my-crate", BumpType::Patch, "Fix bug"));
    let h = harness(MockProjectProvider::single_package("my-crate", "0.5.0"), changesets);
    let input = ReleaseInputBuilder::default()
        .no_commit(true)
        .no_tags(true)
        .keep_changesets(true)
        .graduate_all(true)
        .build()
        .expect("all fields have defaults");
    let output = expect_executed(h.operation.execute("/any", &input).expect("release should succeed"));
    assert_eq!(output.planned_releases().len(), 1);
    assert_eq!(output.planned_releases()[0].new_version().to_string(), "1.0.0", "graduate_all should promote 0.x to 1.0.0");
}

#[test]
fn prerelease_state_saved_after_normal_release() {
    let changesets = MockChangesetReader::new().with_changeset(&path(NESTED_DIR, "fix.md"), make_changeset("my-crate", BumpType::Patch, "Fix bug"));
    let mut prerelease_state = PrereleaseState::new();
    prerelease_state.insert("other-crate".to_string(), "beta".to_string());
    let h = harness_with(
        MockProjectProvider::single_package("my-crate", "1.0.0"),
        changesets,
        MockManifestWriter::new(),
        MockGitProvider::new(),
        MockReleaseStateIO::new().with_prerelease_state(prerelease_state),
    );
    let output = expect_executed(h.operation.execute("/any", &quiet_input()).expect("release should succeed"));
    assert_eq!(output.planned_releases().len(), 1);
    assert_eq!(output.planned_releases()[0].new_version().to_string(), "1.0.1", "should bump patch version");
    let updated_state = h.state.get_prerelease_state();
    assert!(
        updated_state.as_ref().is_some_and(|s| s.contains("other-crate")),
        "unrelated packages should remain in prerelease state after release"
    );
}

#[test]
fn prerelease_graduation_removes_package_from_state_if_present() {
    let changesets = MockChangesetReader::new().with_consumed_changeset(
        &path(NESTED_DIR, "fix.md"),
        make_changeset("my-crate", BumpType::Patch, "Fix bug"),
        "1.0.0-alpha.1".to_string(),
    );
    let h = harness(MockProjectProvider::single_package("my-crate", "1.0.0-alpha.1"), changesets);
    let output = expect_executed(h.operation.execute("/any", &quiet_input()).expect("graduation should succeed"));
    assert_eq!(output.planned_releases().len(), 1);
    assert_eq!(output.planned_releases()[0].new_version().to_string(), "1.0.0", "should graduate from prerelease to stable");
    assert!(is_prerelease(output.planned_releases()[0].current_version()), "current version should have been a prerelease");
    assert!(!is_prerelease(output.planned_releases()[0].new_version()), "new version should be stable");
    let updated_state = h.state.get_prerelease_state();
    assert!(
        updated_state.is_none() || !updated_state.expect("state").contains("my-crate"),
        "graduated package should not be in prerelease state"
    );
}

#[test]
fn saga_rollback_restores_manifest_versions_on_commit_failure() {
    let changesets = MockChangesetReader::new().with_changeset(&path(NESTED_DIR, "fix.md"), make_changeset("my-crate", BumpType::Patch, "Fix a bug"));
    let git = MockGitProvider::new();
    git.set_fail_on_commit(true);
    let h = harness_with(
        MockProjectProvider::single_package("my-crate", "1.0.0"),
        changesets,
        MockManifestWriter::new(),
        git,
        MockReleaseStateIO::new(),
    );
    let input = ReleaseInputBuilder::default().no_tags(true).keep_changesets(true).build().expect("all fields have defaults");
    let result = h.operation.execute("/any", &input);
    assert!(result.is_err(), "release should fail due to commit failure");
    let versions = h.operation.manifest_writer().written_versions();
    assert!(versions.len() >= 2, "should have written version twice (update then rollback), got {} writes", versions.len());
    let last_write = &versions.last().expect("should have at least one write");
    assert_eq!(last_write.1.to_string(), "1.0.0", "last write should restore original version");
}

#[test]
fn saga_rollback_deletes_tags_on_failure_after_tag_creation() {
    let changesets = MockChangesetReader::new()
        .with_changeset(&path(NESTED_DIR, "fix-a.md"), make_changeset("crate-a", BumpType::Patch, "Fix in crate-a"))
        .with_changeset(&path(NESTED_DIR, "feat-b.md"), make_changeset("crate-b", BumpType::Minor, "Feature in crate-b"));
    let h = harness(MockProjectProvider::workspace(vec![("crate-a", "1.0.0"), ("crate-b", "2.0.0")]), changesets);
    let input = ReleaseInputBuilder::default().keep_changesets(true).build().expect("all fields have defaults");
    let result = h.operation.execute("/any", &input);
    assert!(result.is_ok(), "release should succeed");
    assert_eq!(h.git.tags_created().len(), 2, "should create tags for both packages");
}

#[test]
fn saga_rollback_resets_commit_when_tag_creation_fails() {
    let changesets = MockChangesetReader::new().with_changeset(&path(NESTED_DIR, "fix.md"), make_changeset("my-crate", BumpType::Patch, "Fix a bug"));
    let git = MockGitProvider::new();
    git.set_fail_on_create_tag(true);
    let h = harness_with(
        MockProjectProvider::single_package("my-crate", "1.0.0"),
        changesets,
        MockManifestWriter::new(),
        git,
        MockReleaseStateIO::new(),
    );
    let input = ReleaseInputBuilder::default().keep_changesets(true).build().expect("all fields have defaults");
    let result = h.operation.execute("/any", &input);
    assert!(result.is_err(), "release should fail due to tag creation failure");
    assert_eq!(h.operation.git_provider().commits().len(), 1, "should have created one commit before failure");
    assert_eq!(h.operation.git_provider().reset_count(), 1, "should have reset the commit during rollback");
    let versions = h.operation.manifest_writer().written_versions();
    let last_write = versions.last().expect("should have version writes");
    assert_eq!(last_write.1.to_string(), "1.0.0", "manifest version should be restored to original");
}

#[test]
fn auto_bumps_transitive_dependents() {
    let project_provider = MockProjectProvider::workspace(vec![("core", "1.0.0"), ("lib", "1.0.0"), ("app", "1.0.0")])
        .with_dependency_edges(vec![("lib", "core"), ("app", "lib")]);
    let changesets =
        MockChangesetReader::new().with_changeset(&path(NESTED_DIR, "feature.md"), make_changeset("core", BumpType::Minor, "Add feature to core"));
    let h = harness(project_provider, changesets);
    let output = expect_dry_run(h.operation.execute("/any", &default_input()).expect("execute failed"));
    assert_eq!(output.planned_releases().len(), 3);
    let core_release = output.planned_releases().iter().find(|r| r.name() == "core").expect("core should be in releases");
    assert_eq!(core_release.bump_type(), BumpType::Minor);
    assert!(!core_release.auto_bumped());
    let lib_release = output.planned_releases().iter().find(|r| r.name() == "lib").expect("lib should be auto-bumped");
    assert_eq!(lib_release.bump_type(), BumpType::Patch);
    assert!(lib_release.auto_bumped());
    let app_release = output.planned_releases().iter().find(|r| r.name() == "app").expect("app should be auto-bumped");
    assert_eq!(app_release.bump_type(), BumpType::Patch);
    assert!(app_release.auto_bumped());
}

#[test]
fn explicit_changeset_takes_precedence_over_auto_bump() {
    let project_provider =
        MockProjectProvider::workspace(vec![("core", "1.0.0"), ("lib", "1.0.0")]).with_dependency_edges(vec![("lib", "core")]);
    let changesets = MockChangesetReader::new().with_changesets(vec![
        (&path(NESTED_DIR, "feature.md"), make_changeset("core", BumpType::Minor, "Add feature to core")),
        (&path(NESTED_DIR, "fix.md"), make_changeset("lib", BumpType::Patch, "Fix lib")),
    ]);
    let h = harness(project_provider, changesets);
    let output = expect_dry_run(h.operation.execute("/any", &default_input()).expect("execute failed"));
    assert_eq!(output.planned_releases().len(), 2);
    let lib_release = output.planned_releases().iter().find(|r| r.name() == "lib").expect("lib should be in releases");
    assert_eq!(lib_release.bump_type(), BumpType::Patch);
    assert!(!lib_release.auto_bumped(), "explicit changeset should take precedence over auto-bump");
    let lib_count = output.planned_releases().iter().filter(|r| r.name() == "lib").count();
    assert_eq!(lib_count, 1, "lib should appear exactly once");
}

#[test]
fn no_auto_bump_for_single_package_projects() {
    let changesets =
        MockChangesetReader::new().with_changeset(&path(NESTED_DIR, "feature.md"), make_changeset("my-crate", BumpType::Minor, "Add feature"));
    let h = harness(MockProjectProvider::single_package("my-crate", "1.0.0"), changesets);
    let output = expect_dry_run(h.operation.execute("/any", &default_input()).expect("execute failed"));
    assert_eq!(output.planned_releases().len(), 1);
    assert!(!output.planned_releases()[0].auto_bumped());
}

#[test]
fn no_auto_bump_when_no_dependency_edges() {
    let changesets =
        MockChangesetReader::new().with_changeset(&path(NESTED_DIR, "fix.md"), make_changeset("crate-a", BumpType::Patch, "Fix crate-a"));
    let h = harness(
        MockProjectProvider::workspace(vec![("crate-a", "1.0.0"), ("crate-b", "2.0.0"), ("crate-c", "3.0.0")]),
        changesets,
    );
    let output = expect_dry_run(h.operation.execute("/any", &default_input()).expect("execute failed"));
    assert_eq!(output.planned_releases().len(), 1, "only the explicitly changed crate should be released");
    assert_eq!(output.planned_releases()[0].name(), "crate-a");
}

fn none_bump_config(behavior: NoneBumpBehavior) -> RootChangesetConfig {
    let mut config = RootChangesetConfig::default();
    config.none_bump_behavior = behavior;
    config
}

#[test]
fn release_with_promote_to_patch_promotes_none_bump() {
    let project_provider =
        MockProjectProvider::single_package("my-crate", "1.0.0").with_root_config(none_bump_config(NoneBumpBehavior::PromoteToPatch));
    let changesets =
        MockChangesetReader::new().with_changeset(&path(NESTED_DIR, "refactor.md"), make_changeset("my-crate", BumpType::NoBump, "Internal refactor"));
    let h = harness(project_provider, changesets);
    let output = expect_dry_run(h.operation.execute("/any", &default_input()).expect("execute failed"));
    assert_eq!(output.planned_releases().len(), 1);
    let release = &output.planned_releases()[0];
    assert_eq!(release.name(), "my-crate");
    assert_eq!(release.bump_type(), BumpType::Patch);
    assert_eq!(release.new_version().to_string(), "1.0.1");
}

#[test]
fn release_with_disallow_errors_on_none_bump() {
    let project_provider =
        MockProjectProvider::single_package("my-crate", "1.0.0").with_root_config(none_bump_config(NoneBumpBehavior::Disallow));
    let changesets =
        MockChangesetReader::new().with_changeset(&path(NESTED_DIR, "refactor.md"), make_changeset("my-crate", BumpType::NoBump, "Internal refactor"));
    let h = harness(project_provider, changesets);
    let result = h.operation.execute("/any", &default_input());
    assert!(matches!(result, Err(OperationError::NoneBumpDisallowed { .. })));
}

#[test]
fn release_with_allow_excludes_none_bump_from_releases() {
    let project_provider =
        MockProjectProvider::single_package("my-crate", "1.0.0").with_root_config(none_bump_config(NoneBumpBehavior::Allow));
    let changesets =
        MockChangesetReader::new().with_changeset(&path(NESTED_DIR, "refactor.md"), make_changeset("my-crate", BumpType::NoBump, "Internal refactor"));
    let h = harness(project_provider, changesets);
    let output = expect_dry_run(h.operation.execute("/any", &default_input()).expect("execute failed"));
    assert!(output.planned_releases().is_empty(), "None bump with Allow should not produce any planned releases");
}

#[test]
fn release_with_promote_handles_mixed_bumps() {
    let project_provider = MockProjectProvider::workspace(vec![("crate-a", "1.0.0"), ("crate-b", "2.0.0")])
        .with_root_config(none_bump_config(NoneBumpBehavior::PromoteToPatch));
    let changeset = Changeset::new(
        "mixed change".to_string(),
        vec![
            PackageRelease::new("crate-a".to_string(), BumpType::Patch),
            PackageRelease::new("crate-b".to_string(), BumpType::NoBump),
        ],
        ChangeCategory::Fixed,
    );
    let changesets = MockChangesetReader::new().with_changeset(&path(NESTED_DIR, "mixed.md"), changeset);
    let h = harness(project_provider, changesets);
    let output = expect_dry_run(h.operation.execute("/any", &default_input()).expect("execute failed"));
    assert_eq!(output.planned_releases().len(), 2);
    let release_a = output.planned_releases().iter().find(|r| r.name() == "crate-a").expect("crate-a should be in planned releases");
    assert_eq!(release_a.bump_type(), BumpType::Patch);
    let release_b = output.planned_releases().iter().find(|r| r.name() == "crate-b").expect("crate-b should be in planned releases");
    assert_eq!(release_b.bump_type(), BumpType::Patch);
}

fn make_test_changeset(name: &str) -> Changeset {
    make_changeset(name, BumpType::Patch, &format!("Fix {name}"))
}

#[test]
fn mock_list_changesets_filters_consumed() {
    let reader = MockChangesetReader::new()
        .with_changeset("/mock/.changeset/unconsumed.md", make_test_changeset("pkg-a"))
        .with_consumed_changeset("/mock/.changeset/consumed.md", make_test_changeset("pkg-b"), "1.0.0-pre.1".to_string());
    let listed = reader.list_changesets("/mock/.changeset").expect("list_changesets should succeed");
    assert_eq!(listed.len(), 1);
    assert!(listed.contains(&"/mock/.changeset/unconsumed.md".to_string()));
    assert!(!listed.contains(&"/mock/.changeset/consumed.md".to_string()));
}

#[test]
fn mock_list_consumed_changesets_returns_consumed() {
    let reader = MockChangesetReader::new()
        .with_changeset("/mock/.changeset/unconsumed.md", make_test_changeset("pkg-a"))
        .with_consumed_changeset("/mock/.changeset/consumed.md", make_test_changeset("pkg-b"), "1.0.0-pre.1".to_string());
    let consumed = reader.list_consumed_changesets("/mock/.changeset").expect("list_consumed_changesets should succeed");
    assert_eq!(consumed.len(), 1);
    assert!(consumed.contains(&"/mock/.changeset/consumed.md".to_string()));
    assert!(!consumed.contains(&"/mock/.changeset/unconsumed.md".to_string()));
}

#[test]
fn mock_mark_consumed_updates_state() {
    let path = "/mock/.changeset/changeset.md".to_string();
    let reader = MockChangesetReader::new().with_changeset(&path, make_test_changeset("pkg-a"));
    assert!(reader.get_consumed_status(&path).is_none());
    reader
        .mark_consumed_for_prerelease("/mock/.changeset", &[path.clone()], &version("2.0.0-pre.1"))
        .expect("mark_consumed should succeed");
    assert_eq!(reader.get_consumed_status(&path), Some("2.0.0-pre.1".to_string()));
    assert!(reader.list_changesets("/mock/.changeset").expect("list_changesets should succeed").is_empty());
    let consumed = reader.list_consumed_changesets("/mock/.changeset").expect("list_consumed_changesets should succeed");
    assert_eq!(consumed.len(), 1);
    assert!(consumed.contains(&path));
}

#[test]
fn mock_clear_consumed_updates_state() {
    let path = "/mock/.changeset/changeset.md".to_string();
    let reader = MockChangesetReader::new().with_consumed_changeset(&path, make_test_changeset("pkg-a"), "1.0.0-pre.1".to_string());
    assert_eq!(reader.get_consumed_status(&path), Some("1.0.0-pre.1".to_string()));
    reader.clear_consumed_for_prerelease("/mock/.changeset", &[path.clone()]).expect("clear_consumed should succeed");
    assert!(reader.get_consumed_status(&path).is_none());
    assert!(reader.list_consumed_changesets("/mock/.changeset").expect("list_consumed_changesets should succeed").is_empty());
    let listed = reader.list_changesets("/mock/.changeset").expect("list_changesets should succeed");
    assert_eq!(listed.len(), 1);
    assert!(listed.contains(&path));
}

#[test]
fn capture_state_returns_changelog_file_read_when_read_fails() {
    let changesets =
        MockChangesetReader::new().with_changeset(&path(NESTED_DIR, "fix.md"), make_changeset("crate-a", BumpType::Patch, "Fix"));
    let changelogs = MockChangelogWriter::new().with_existing_changelog("/mock/project/CHANGELOG.md");
    let operation = ReleaseOperation::new(
        MockProjectProvider::single_package("crate-a", "1.0.0"),
        changesets,
        MockManifestWriter::new(),
        changelogs,
        MockGitProvider::new(),
        MockReleaseStateIO::new(),
    );
    let result = operation.execute("/any", &quiet_input());
    assert!(result.is_err());
    assert!(matches!(result.expect_err("should fail"), OperationError::ChangelogFileRead { .. }));
}

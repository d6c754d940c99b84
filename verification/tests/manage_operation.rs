use std::cell::RefCell;
use std::rc::Rc;

use changeset_operations::config::{PackageChangesetConfig, RootChangesetConfig};
use changeset_operations::error::{OperationError, Result};
use changeset_operations::manage::{
    plan_graduation_changes, plan_prerelease_changes, GraduationDirectInput, PrereleaseDirectInput,
    parse_prerelease_entry, validate_can_graduate, validate_package_exists, validate_prerelease_tag, GraduationEvent,
    GraduationManageOperation, PrereleaseEvent, PrereleaseManageOperation,
};
use changeset_operations::model::{CargoProject, PackageInfo, ProjectKind};
use changeset_operations::release_state::{GraduationState, PrereleaseState};
use changeset_operations::traits::{
    GraduationAction, GraduationInteractionProvider, MenuSelection, PrereleaseAction, PrereleaseInteractionProvider,
    ProjectProvider, ReleaseStateIO,
};
use changeset_operations::version::Version;

fn make_project(packages: Vec<(&str, &str)>) -> CargoProject {
    CargoProject::new(
        "/mock/project".to_string(),
        ProjectKind::VirtualWorkspace,
        packages
            .into_iter()
            .map(|(name, version)| PackageInfo {
                name: name.to_string(),
                version: Version::parse(version).expect("valid version"),
                path: format!("/mock/project/crates/{name}"),
            })
            .collect(),
    )
}

struct MockProjectProvider {
    project: CargoProject,
}

impl MockProjectProvider {
    fn workspace(packages: Vec<(&str, &str)>) -> Self {
        MockProjectProvider { project: make_project(packages) }
    }
}

impl ProjectProvider for MockProjectProvider {
    fn discover_project(&self, _start_path: &str) -> Result<CargoProject> {
        Ok(self.project.clone())
    }

    fn load_configs(&self, _project: &CargoProject) -> Result<(RootChangesetConfig, Vec<(String, PackageChangesetConfig)>)> {
        Ok((RootChangesetConfig::default(), Vec::new()))
    }

    fn ensure_changeset_dir(&self, project: &CargoProject, _config: &RootChangesetConfig) -> Result<String> {
        Ok(format!("{}/.changeset", project.root))
    }

    fn discover_additional_packages(&self, _root: &str, _config: &RootChangesetConfig) -> Result<Vec<PackageInfo>> {
        Ok(Vec::new())
    }

    fn path_exists(&self, _path: &str) -> bool {
        false
    }

    fn write_file(&self, _path: &str, _contents: &str) -> Result<()> {
        Ok(())
    }
}

/// Keeps the saved state where a test can look at it after the run.
#[derive(Clone)]
struct MockReleaseStateIO {
    prerelease: Rc<RefCell<Option<PrereleaseState>>>,
    graduation: Rc<RefCell<Option<GraduationState>>>,
}

impl MockReleaseStateIO {
    fn new() -> Self {
        MockReleaseStateIO { prerelease: Rc::new(RefCell::new(None)), graduation: Rc::new(RefCell::new(None)) }
    }

    fn with_prerelease_state(self, state: PrereleaseState) -> Self {
        *self.prerelease.borrow_mut() = Some(state);
        self
    }
}

impl ReleaseStateIO for MockReleaseStateIO {
    fn load_prerelease_state(&self, _dir: &str) -> Result<Option<PrereleaseState>> {
        Ok(self.prerelease.borrow().clone())
    }

    fn save_prerelease_state(&self, _dir: &str, state: &PrereleaseState) -> Result<()> {
        *self.prerelease.borrow_mut() = if state.is_empty() { None } else { Some(state.clone()) };
        Ok(())
    }

    fn load_graduation_state(&self, _dir: &str) -> Result<Option<GraduationState>> {
        Ok(self.graduation.borrow().clone())
    }

    fn save_graduation_state(&self, _dir: &str, state: &GraduationState) -> Result<()> {
        *self.graduation.borrow_mut() = if state.is_empty() { None } else { Some(state.clone()) };
        Ok(())
    }
}

/// Answers each prompt from a queue; an empty queue answers "cancelled".
struct MockManageInteractionProvider {
    prerelease_actions: RefCell<Vec<MenuSelection<PrereleaseAction>>>,
    package_selections: RefCell<Vec<MenuSelection<usize>>>,
    prerelease_tags: RefCell<Vec<String>>,
    graduation_actions: RefCell<Vec<MenuSelection<GraduationAction>>>,
    graduation_selections: RefCell<Vec<MenuSelection<usize>>>,
}

fn next<T>(queue: &RefCell<Vec<MenuSelection<T>>>) -> MenuSelection<T> {
    let mut q = queue.borrow_mut();
    if q.is_empty() {
        MenuSelection::Cancelled
    } else {
        q.remove(0)
    }
}

impl MockManageInteractionProvider {
    fn new() -> Self {
        MockManageInteractionProvider {
            prerelease_actions: RefCell::new(Vec::new()),
            package_selections: RefCell::new(Vec::new()),
            prerelease_tags: RefCell::new(Vec::new()),
            graduation_actions: RefCell::new(Vec::new()),
            graduation_selections: RefCell::new(Vec::new()),
        }
    }

    fn with_prerelease_actions(self, actions: Vec<MenuSelection<PrereleaseAction>>) -> Self {
        *self.prerelease_actions.borrow_mut() = actions;
        self
    }

    fn with_package_selections(self, selections: Vec<MenuSelection<usize>>) -> Self {
        *self.package_selections.borrow_mut() = selections;
        self
    }

    fn with_prerelease_tags(self, tags: Vec<String>) -> Self {
        *self.prerelease_tags.borrow_mut() = tags;
        self
    }

    fn with_graduation_actions(self, actions: Vec<MenuSelection<GraduationAction>>) -> Self {
        *self.graduation_actions.borrow_mut() = actions;
        self
    }

    fn with_graduation_selections(self, selections: Vec<MenuSelection<usize>>) -> Self {
        *self.graduation_selections.borrow_mut() = selections;
        self
    }
}

impl PrereleaseInteractionProvider for MockManageInteractionProvider {
    fn select_prerelease_action(&self) -> Result<MenuSelection<PrereleaseAction>> {
        Ok(next(&self.prerelease_actions))
    }

    fn select_package_for_prerelease(&self, _available: &[PackageInfo]) -> Result<MenuSelection<usize>> {
        Ok(next(&self.package_selections))
    }

    fn get_prerelease_tag(&self) -> Result<String> {
        let mut tags = self.prerelease_tags.borrow_mut();
        if tags.is_empty() {
            Ok("alpha".to_string())
        } else {
            Ok(tags.remove(0))
        }
    }

    fn select_package_to_remove_prerelease(&self, _entries: &[(String, String)]) -> Result<MenuSelection<usize>> {
        Ok(next(&self.package_selections))
    }
}

impl GraduationInteractionProvider for MockManageInteractionProvider {
    fn select_graduation_action(&self) -> Result<MenuSelection<GraduationAction>> {
        Ok(next(&self.graduation_actions))
    }

    fn select_package_for_graduation(&self, _eligible: &[PackageInfo]) -> Result<MenuSelection<usize>> {
        Ok(next(&self.graduation_selections))
    }

    fn select_package_to_remove_graduation(&self, _names: &[String]) -> Result<MenuSelection<usize>> {
        Ok(next(&self.graduation_selections))
    }
}

fn run_prerelease(
    operation: &PrereleaseManageOperation<MockProjectProvider, MockReleaseStateIO, MockManageInteractionProvider>,
) -> Result<Vec<PrereleaseEvent>> {
    let mut session = operation.start("/any")?;
    let mut events = Vec::new();
    loop {
        let action = operation.interaction_provider().select_prerelease_action()?;
        if !operation.step(&mut session, action, &mut events)? {
            break;
        }
    }
    Ok(events)
}

fn run_graduation(
    operation: &GraduationManageOperation<MockProjectProvider, MockReleaseStateIO, MockManageInteractionProvider>,
) -> Result<Vec<GraduationEvent>> {
    let mut session = operation.start("/any")?;
    let mut events = Vec::new();
    loop {
        let action = operation.interaction_provider().select_graduation_action()?;
        if !operation.step(&mut session, action, &mut events)? {
            break;
        }
    }
    Ok(events)
}

#[test]
fn rejects_missing_colon() {
    let result = parse_prerelease_entry("no-colon-here");
    assert!(result.is_err());
    assert!(matches!(result.expect_err("should fail"), OperationError::InvalidPrereleaseFormat { .. }));
}

#[test]
fn rejects_empty_crate_name() {
    let result = parse_prerelease_entry(":alpha");
    assert!(result.is_err());
    assert!(matches!(result.expect_err("should fail"), OperationError::InvalidPrereleaseFormat { .. }));
}

#[test]
fn rejects_empty_tag() {
    let result = parse_prerelease_entry("crate-name:");
    assert!(result.is_err());
    assert!(matches!(result.expect_err("should fail"), OperationError::InvalidPrereleaseFormat { .. }));
}

#[test]
fn accepts_alpha() {
    assert!(validate_prerelease_tag("alpha").is_ok());
}

#[test]
fn accepts_beta() {
    assert!(validate_prerelease_tag("beta").is_ok());
}

#[test]
fn accepts_rc() {
    assert!(validate_prerelease_tag("rc").is_ok());
}

#[test]
fn accepts_custom_alphanumeric() {
    assert!(validate_prerelease_tag("nightly").is_ok());
    assert!(validate_prerelease_tag("dev123").is_ok());
}

#[test]
fn accepts_hyphenated_tags() {
    assert!(validate_prerelease_tag("pre-release").is_ok());
}

#[test]
fn rejects_empty() {
    assert!(validate_prerelease_tag("").is_err());
}

#[test]
fn rejects_invalid_characters() {
    assert!(validate_prerelease_tag("alpha.1").is_err());
}

#[test]
fn rejects_spaces() {
    let result = validate_prerelease_tag("alpha 1");
    assert!(result.is_err());
    assert!(matches!(result.expect_err("should fail"), OperationError::InvalidPrereleaseTag { .. }));
}

#[test]
fn rejects_underscores() {
    assert!(validate_prerelease_tag("alpha_1").is_err());
}

#[test]
fn succeeds_for_existing_package() {
    let project = make_project(vec![("crate-a", "1.0.0"), ("crate-b", "2.0.0")]);
    assert!(validate_package_exists(&project, "crate-a").is_ok());
}

#[test]
fn manage_fails_for_unknown_package() {
    let project = make_project(vec![("crate-a", "1.0.0")]);
    let result = validate_package_exists(&project, "nonexistent");
    assert!(result.is_err());
    let err = result.expect_err("should fail");
    assert!(matches!(err, OperationError::PackageNotFound { .. }));
    assert!(err.to_string().contains("nonexistent"));
}

#[test]
fn fails_for_empty_project() {
    let project = make_project(vec![]);
    let result = validate_package_exists(&project, "any-crate");
    assert!(result.is_err());
    assert!(matches!(result.expect_err("should fail"), OperationError::PackageNotFound { .. }));
}

#[test]
fn succeeds_for_zero_stable_version() {
    let project = make_project(vec![("crate-a", "0.5.0")]);
    assert!(validate_can_graduate(&project, "crate-a").is_ok());
}

#[test]
fn fails_for_prerelease_version() {
    let project = make_project(vec![("crate-a", "0.5.0-alpha.1")]);
    let result = validate_can_graduate(&project, "crate-a");
    assert!(result.is_err());
    let err = result.expect_err("should fail");
    assert!(matches!(err, OperationError::CannotGraduatePrerelease { .. }));
    assert!(err.to_string().contains("crate-a"));
    assert!(err.to_string().contains("prerelease"));
}

#[test]
fn fails_for_stable_version_1_0_0() {
    let project = make_project(vec![("crate-a", "1.0.0")]);
    let result = validate_can_graduate(&project, "crate-a");
    assert!(result.is_err());
    let err = result.expect_err("should fail");
    assert!(matches!(err, OperationError::CannotGraduateStable { .. }));
    assert!(err.to_string().contains("stable"));
}

#[test]
fn fails_for_stable_version_above_1() {
    let project = make_project(vec![("crate-a", "2.5.3")]);
    let result = validate_can_graduate(&project, "crate-a");
    assert!(result.is_err());
    assert!(matches!(result.expect_err("should fail"), OperationError::CannotGraduateStable { .. }));
}

#[test]
fn can_graduate_fails_for_unknown_package() {
    let project = make_project(vec![("crate-a", "0.5.0")]);
    let result = validate_can_graduate(&project, "nonexistent");
    assert!(result.is_err());
    assert!(matches!(result.expect_err("should fail"), OperationError::PackageNotFound { .. }));
}

#[test]
fn fails_for_zero_prerelease_version() {
    let project = make_project(vec![("crate-a", "0.1.0-beta.1")]);
    let result = validate_can_graduate(&project, "crate-a");
    assert!(result.is_err());
    assert!(matches!(result.expect_err("should fail"), OperationError::CannotGraduatePrerelease { .. }));
}

#[test]
fn manage_exits_on_done_action() {
    let interaction =
        MockManageInteractionProvider::new().with_prerelease_actions(vec![MenuSelection::Selected(PrereleaseAction::Done)]);
    let operation = PrereleaseManageOperation::new(
        MockProjectProvider::workspace(vec![("crate-a", "0.1.0")]),
        MockReleaseStateIO::new(),
        interaction,
    );
    let events = run_prerelease(&operation).expect("should succeed");
    assert!(events.iter().any(|e| matches!(e, PrereleaseEvent::DisplayState(_))));
}

#[test]
fn exits_on_cancelled() {
    let interaction = MockManageInteractionProvider::new().with_prerelease_actions(vec![MenuSelection::Cancelled]);
    let operation = PrereleaseManageOperation::new(
        MockProjectProvider::workspace(vec![("crate-a", "0.1.0")]),
        MockReleaseStateIO::new(),
        interaction,
    );
    let events = run_prerelease(&operation).expect("should succeed");
    assert_eq!(events.len(), 1);
}

#[test]
fn adds_package_to_prerelease() {
    let release_state_io = MockReleaseStateIO::new();
    let interaction = MockManageInteractionProvider::new()
        .with_prerelease_actions(vec![
            MenuSelection::Selected(PrereleaseAction::Add),
            MenuSelection::Selected(PrereleaseAction::Done),
        ])
        .with_package_selections(vec![MenuSelection::Selected(0)])
        .with_prerelease_tags(vec!["alpha".to_string()]);
    let operation = PrereleaseManageOperation::new(
        MockProjectProvider::workspace(vec![("crate-a", "0.1.0")]),
        release_state_io.clone(),
        interaction,
    );
    let events = run_prerelease(&operation).expect("should succeed");
    assert!(events.iter().any(|e| matches!(
        e,
        PrereleaseEvent::Added { crate_name, tag } if crate_name == "crate-a" && tag == "alpha"
    )));
    let saved = release_state_io.prerelease.borrow().clone().expect("state saved");
    assert_eq!(saved.get("crate-a"), Some("alpha".to_string()));
}

#[test]
fn reports_all_packages_in_prerelease() {
    let mut state = PrereleaseState::new();
    state.insert("crate-a".to_string(), "alpha".to_string());
    let interaction = MockManageInteractionProvider::new().with_prerelease_actions(vec![
        MenuSelection::Selected(PrereleaseAction::Add),
        MenuSelection::Selected(PrereleaseAction::Done),
    ]);
    let operation = PrereleaseManageOperation::new(
        MockProjectProvider::workspace(vec![("crate-a", "0.1.0")]),
        MockReleaseStateIO::new().with_prerelease_state(state),
        interaction,
    );
    let events = run_prerelease(&operation).expect("should succeed");
    assert!(events.iter().any(|e| matches!(e, PrereleaseEvent::AllPackagesInPrerelease)));
}

#[test]
fn graduation_exits_on_done_action() {
    let interaction =
        MockManageInteractionProvider::new().with_graduation_actions(vec![MenuSelection::Selected(GraduationAction::Done)]);
    let operation = GraduationManageOperation::new(
        MockProjectProvider::workspace(vec![("crate-a", "0.1.0")]),
        MockReleaseStateIO::new(),
        interaction,
    );
    let events = run_graduation(&operation).expect("should succeed");
    assert!(events.iter().any(|e| matches!(e, GraduationEvent::DisplayState(_))));
}

#[test]
fn adds_package_to_graduation() {
    let release_state_io = MockReleaseStateIO::new();
    let interaction = MockManageInteractionProvider::new()
        .with_graduation_actions(vec![
            MenuSelection::Selected(GraduationAction::Add),
            MenuSelection::Selected(GraduationAction::Done),
        ])
        .with_graduation_selections(vec![MenuSelection::Selected(0)]);
    let operation = GraduationManageOperation::new(
        MockProjectProvider::workspace(vec![("crate-a", "0.1.0")]),
        release_state_io.clone(),
        interaction,
    );
    let events = run_graduation(&operation).expect("should succeed");
    assert!(events.iter().any(|e| matches!(e, GraduationEvent::Added { crate_name } if crate_name == "crate-a")));
    let saved = release_state_io.graduation.borrow().clone().expect("state saved");
    assert!(saved.contains("crate-a"));
}

#[test]
fn reports_no_graduation_packages_on_remove() {
    let interaction = MockManageInteractionProvider::new().with_graduation_actions(vec![
        MenuSelection::Selected(GraduationAction::Remove),
        MenuSelection::Selected(GraduationAction::Done),
    ]);
    let operation = GraduationManageOperation::new(
        MockProjectProvider::workspace(vec![("crate-a", "0.1.0")]),
        MockReleaseStateIO::new(),
        interaction,
    );
    let events = run_graduation(&operation).expect("should succeed");
    assert!(events.iter().any(|e| matches!(e, GraduationEvent::NoGraduationPackages)));
}

#[test]
fn prerelease_graduate_moves_package_out_of_prerelease() {
    let mut state = PrereleaseState::new();
    state.insert("crate-a".to_string(), "alpha".to_string());
    let release_state_io = MockReleaseStateIO::new().with_prerelease_state(state);
    let interaction = MockManageInteractionProvider::new()
        .with_prerelease_actions(vec![
            MenuSelection::Selected(PrereleaseAction::Graduate),
            MenuSelection::Selected(PrereleaseAction::Done),
        ])
        .with_graduation_selections(vec![MenuSelection::Selected(0)]);
    let operation = PrereleaseManageOperation::new(
        MockProjectProvider::workspace(vec![("crate-a", "0.1.0"), ("crate-b", "1.0.0")]),
        release_state_io.clone(),
        interaction,
    );
    let events = run_prerelease(&operation).expect("should succeed");
    assert!(events.iter().any(|e| matches!(e, PrereleaseEvent::MovedToGraduation { crate_name } if crate_name == "crate-a")));
    assert!(release_state_io.prerelease.borrow().is_none());
    assert!(release_state_io.graduation.borrow().clone().expect("queue saved").contains("crate-a"));
}

#[test]
fn prerelease_plan_adds_then_graduates_and_saves_both_states() {
    let project = make_project(vec![("crate-a", "1.0.0"), ("crate-b", "0.2.0")]);
    let input = PrereleaseDirectInput::new(
        vec!["crate-a:alpha".to_string()],
        Vec::new(),
        vec!["crate-b".to_string()],
        true,
    );
    let changes = plan_prerelease_changes(&project, PrereleaseState::new(), GraduationState::new(), &input)
        .expect("valid input");
    assert!(changes.save_prerelease);
    assert!(changes.save_graduation);
    assert_eq!(changes.events.len(), 3);
    assert!(matches!(&changes.events[0], PrereleaseEvent::Added { crate_name, tag } if crate_name == "crate-a" && tag == "alpha"));
    assert!(matches!(&changes.events[1], PrereleaseEvent::MovedToGraduation { crate_name } if crate_name == "crate-b"));
    assert!(matches!(&changes.events[2], PrereleaseEvent::DisplayState(_)));
}

#[test]
fn prerelease_plan_refuses_unknown_package_before_anything_changes() {
    let project = make_project(vec![("crate-a", "1.0.0")]);
    let input = PrereleaseDirectInput::new(vec!["missing:beta".to_string()], Vec::new(), Vec::new(), false);
    let result = plan_prerelease_changes(&project, PrereleaseState::new(), GraduationState::new(), &input);
    assert!(matches!(result, Err(OperationError::PackageNotFound { .. })));
}

#[test]
fn graduation_plan_without_changes_saves_nothing() {
    let project = make_project(vec![("crate-a", "0.1.0")]);
    let input = GraduationDirectInput::new(Vec::new(), vec!["crate-a".to_string()], false);
    let changes = plan_graduation_changes(&project, GraduationState::new(), &input).expect("valid input");
    assert!(!changes.save);
    assert!(changes.events.is_empty());
}

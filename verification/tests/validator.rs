use changeset_operations::error::{parse_prerelease_tag, OperationError};
use changeset_operations::model::{PackageInfo, ProjectKind};
use changeset_operations::name_map::NameMap;
use changeset_operations::release_state::{GraduationState, PrereleaseSpec, PrereleaseSpecParseError, PrereleaseState};
use changeset_operations::validator::{
    build_release_config, ReleaseCliInput, ReleaseInputBuilder, ReleaseValidator, ValidationError, ValidationErrors,
};
use changeset_operations::version::Version;

fn make_package(name: &str, version: &str) -> PackageInfo {
    PackageInfo { name: name.to_string(), version: Version::parse(version).expect("valid version"), path: format!("/mock/{name}") }
}

fn cli(prerelease: &[(&str, PrereleaseSpec)], global: Option<PrereleaseSpec>, graduate: &[&str], graduate_all: bool) -> ReleaseCliInput {
    let mut map = NameMap::new();
    for (name, spec) in prerelease {
        map.insert(name.to_string(), spec.clone());
    }
    ReleaseCliInput::new(map, global, graduate.iter().map(|s| s.to_string()).collect(), graduate_all)
}

fn empty_cli_input() -> ReleaseCliInput {
    cli(&[], None, &[], false)
}

fn first_error(errors: ValidationErrors) -> ValidationError {
    errors.into_vec().into_iter().next().expect("at least one error")
}

#[test]
fn matching_tags_pass() {
    let packages = vec![make_package("crate-a", "1.0.0")];
    let cli_input = cli(&[("crate-a", PrereleaseSpec::Alpha)], None, &[], false);
    let mut prerelease_state = PrereleaseState::new();
    prerelease_state.insert("crate-a".to_string(), "alpha".to_string());

    let result = ReleaseValidator::validate(&cli_input, Some(&prerelease_state), None, &packages, &ProjectKind::SinglePackage);

    assert!(result.is_ok());
}

#[test]
fn conflicting_tags_fail() {
    let packages = vec![make_package("crate-a", "1.0.0")];
    let cli_input = cli(&[("crate-a", PrereleaseSpec::Beta)], None, &[], false);
    let mut prerelease_state = PrereleaseState::new();
    prerelease_state.insert("crate-a".to_string(), "alpha".to_string());

    let result = ReleaseValidator::validate(&cli_input, Some(&prerelease_state), None, &packages, &ProjectKind::SinglePackage);

    assert!(result.is_err());
    let errors = result.expect_err("validation should fail");
    assert_eq!(errors.len(), 1);
    assert!(matches!(first_error(errors), ValidationError::ConflictingPrereleaseTag { .. }));
}

#[test]
fn cannot_graduate_prerelease_version() {
    let packages = vec![make_package("crate-a", "1.0.0-alpha.1")];
    let cli_input = cli(&[], None, &["crate-a"], false);

    let result = ReleaseValidator::validate(&cli_input, None, None, &packages, &ProjectKind::SinglePackage);

    assert!(result.is_err());
    assert!(matches!(
        first_error(result.expect_err("validation should fail")),
        ValidationError::CannotGraduateFromPrerelease { .. }
    ));
}

#[test]
fn cannot_graduate_stable_version() {
    let packages = vec![make_package("crate-a", "2.0.0")];
    let cli_input = cli(&[], None, &["crate-a"], false);

    let result = ReleaseValidator::validate(&cli_input, None, None, &packages, &ProjectKind::SinglePackage);

    assert!(result.is_err());
    assert!(matches!(
        first_error(result.expect_err("validation should fail")),
        ValidationError::CannotGraduateStableVersion { .. }
    ));
}

#[test]
fn zero_version_graduation_passes() {
    let packages = vec![make_package("crate-a", "0.5.0")];
    let cli_input = cli(&[], None, &["crate-a"], false);

    let result = ReleaseValidator::validate(&cli_input, None, None, &packages, &ProjectKind::SinglePackage);

    assert!(result.is_ok());
}

#[test]
fn workspace_graduate_requires_crate_names() {
    let packages = vec![make_package("crate-a", "0.5.0"), make_package("crate-b", "0.3.0")];
    let cli_input = cli(&[], None, &[], true);

    let result = ReleaseValidator::validate(&cli_input, None, None, &packages, &ProjectKind::VirtualWorkspace);

    assert!(result.is_err());
    assert!(matches!(
        first_error(result.expect_err("validation should fail")),
        ValidationError::GraduateRequiresCratesInWorkspace
    ));
}

#[test]
fn single_package_graduate_without_name_passes() {
    let packages = vec![make_package("my-crate", "0.5.0")];
    let cli_input = cli(&[], None, &[], true);

    let result = ReleaseValidator::validate(&cli_input, None, None, &packages, &ProjectKind::SinglePackage);

    assert!(result.is_ok());
}

#[test]
fn unknown_package_in_prerelease_fails() {
    let packages = vec![make_package("known", "1.0.0")];
    let cli_input = cli(&[("unknown", PrereleaseSpec::Alpha)], None, &[], false);

    let result = ReleaseValidator::validate(&cli_input, None, None, &packages, &ProjectKind::SinglePackage);

    assert!(result.is_err());
    assert!(matches!(first_error(result.expect_err("validation should fail")), ValidationError::PackageNotFound { .. }));
}

#[test]
fn graduation_with_prerelease_toml_succeeds() {
    let packages = vec![make_package("crate-a", "0.5.0")];
    let cli_input = cli(&[], None, &["crate-a"], false);
    let mut prerelease_state = PrereleaseState::new();
    prerelease_state.insert("crate-a".to_string(), "alpha".to_string());

    let result = ReleaseValidator::validate(&cli_input, Some(&prerelease_state), None, &packages, &ProjectKind::SinglePackage);

    assert!(result.is_ok(), "graduation with prerelease TOML should succeed");
    let config = result.expect("validation should pass");
    let pkg_config = config.per_package().get("crate-a").expect("crate-a should have config");
    assert!(pkg_config.graduate_zero, "should be marked for graduation");
    assert!(matches!(pkg_config.prerelease, Some(PrereleaseSpec::Alpha)), "should have alpha prerelease tag");
}

#[test]
fn collects_all_errors() {
    let packages = vec![make_package("known", "1.0.0")];
    let cli_input = cli(&[("unknown1", PrereleaseSpec::Alpha)], None, &["unknown2"], false);

    let result = ReleaseValidator::validate(&cli_input, None, None, &packages, &ProjectKind::SinglePackage);

    assert!(result.is_err());
    assert_eq!(result.expect_err("validation should fail").len(), 2);
}

#[test]
fn invalid_prerelease_tag_in_toml_fails() {
    let packages = vec![make_package("crate-a", "1.0.0")];
    let cli_input = empty_cli_input();
    let mut prerelease_state = PrereleaseState::new();
    prerelease_state.insert("crate-a".to_string(), "not-a-valid-tag!!!".to_string());

    let result = ReleaseValidator::validate(&cli_input, Some(&prerelease_state), None, &packages, &ProjectKind::SinglePackage);

    assert!(result.is_err());
    let errors = result.expect_err("validation should fail");
    assert_eq!(errors.len(), 1);
    assert!(matches!(first_error(errors), ValidationError::InvalidPrereleaseTag { .. }));
}

#[test]
fn valid_prerelease_tag_in_toml_passes() {
    let packages = vec![make_package("crate-a", "1.0.0")];
    let cli_input = empty_cli_input();
    let mut prerelease_state = PrereleaseState::new();
    prerelease_state.insert("crate-a".to_string(), "alpha".to_string());

    let result = ReleaseValidator::validate(&cli_input, Some(&prerelease_state), None, &packages, &ProjectKind::SinglePackage);

    assert!(result.is_ok());
}

#[test]
fn builds_config_from_all_sources() {
    let packages = vec![make_package("crate-a", "0.5.0"), make_package("crate-b", "0.3.0"), make_package("crate-c", "1.0.0")];
    let cli_input = cli(&[("crate-a", PrereleaseSpec::Beta)], None, &[], false);
    let mut prerelease_state = PrereleaseState::new();
    prerelease_state.insert("crate-b".to_string(), "alpha".to_string());
    let mut graduation_state = GraduationState::new();
    graduation_state.add("crate-a".to_string());

    let result = ReleaseValidator::validate(
        &cli_input,
        Some(&prerelease_state),
        Some(&graduation_state),
        &packages,
        &ProjectKind::VirtualWorkspace,
    );

    assert!(result.is_ok());
    let config = result.expect("validation should pass");
    let config_a = config.per_package().get("crate-a").expect("crate-a should have config");
    assert!(matches!(config_a.prerelease, Some(PrereleaseSpec::Beta)));
    assert!(config_a.graduate_zero);
    let config_b = config.per_package().get("crate-b").expect("crate-b should have config");
    assert!(matches!(config_b.prerelease, Some(PrereleaseSpec::Alpha)));
    assert!(!config_b.graduate_zero);
}

#[test]
fn collects_three_or_more_errors() {
    let packages = vec![make_package("known", "1.0.0")];
    let cli_input = cli(&[("unknown1", PrereleaseSpec::Alpha), ("unknown2", PrereleaseSpec::Beta)], None, &["unknown3"], false);

    let result = ReleaseValidator::validate(&cli_input, None, None, &packages, &ProjectKind::SinglePackage);

    assert!(result.is_err());
    assert_eq!(result.expect_err("validation should fail").len(), 3, "should collect all three errors");
}

#[test]
fn graduation_from_toml_for_prerelease_version_fails() {
    let packages = vec![make_package("crate-a", "0.5.0-alpha.1")];
    let cli_input = empty_cli_input();
    let mut graduation_state = GraduationState::new();
    graduation_state.add("crate-a".to_string());

    let result = ReleaseValidator::validate(&cli_input, None, Some(&graduation_state), &packages, &ProjectKind::SinglePackage);

    assert!(result.is_err());
    assert!(matches!(
        first_error(result.expect_err("validation should fail")),
        ValidationError::CannotGraduateFromPrerelease { .. }
    ));
}

#[test]
fn graduation_from_toml_for_stable_version_fails() {
    let packages = vec![make_package("crate-a", "2.0.0")];
    let cli_input = empty_cli_input();
    let mut graduation_state = GraduationState::new();
    graduation_state.add("crate-a".to_string());

    let result = ReleaseValidator::validate(&cli_input, None, Some(&graduation_state), &packages, &ProjectKind::SinglePackage);

    assert!(result.is_err());
    assert!(matches!(
        first_error(result.expect_err("validation should fail")),
        ValidationError::CannotGraduateStableVersion { .. }
    ));
}

#[test]
fn graduation_toml_with_prerelease_toml_succeeds() {
    let packages = vec![make_package("crate-a", "0.5.0")];
    let cli_input = empty_cli_input();
    let mut prerelease_state = PrereleaseState::new();
    prerelease_state.insert("crate-a".to_string(), "alpha".to_string());
    let mut graduation_state = GraduationState::new();
    graduation_state.add("crate-a".to_string());

    let result = ReleaseValidator::validate(
        &cli_input,
        Some(&prerelease_state),
        Some(&graduation_state),
        &packages,
        &ProjectKind::SinglePackage,
    );

    assert!(result.is_ok(), "graduation TOML + prerelease TOML should succeed");
    let config = result.expect("validation should pass");
    let pkg_config = config.per_package().get("crate-a").expect("crate-a should have config");
    assert!(pkg_config.graduate_zero, "should be marked for graduation");
    assert!(matches!(pkg_config.prerelease, Some(PrereleaseSpec::Alpha)), "should have alpha prerelease tag from TOML");
}

#[test]
fn empty_prerelease_tag_in_toml_fails() {
    let packages = vec![make_package("crate-a", "1.0.0")];
    let cli_input = empty_cli_input();
    let mut prerelease_state = PrereleaseState::new();
    prerelease_state.insert("crate-a".to_string(), String::new());

    let result = ReleaseValidator::validate(&cli_input, Some(&prerelease_state), None, &packages, &ProjectKind::SinglePackage);

    assert!(result.is_err());
    assert!(matches!(first_error(result.expect_err("validation should fail")), ValidationError::InvalidPrereleaseTag { .. }));
}

#[test]
fn validator_global_prerelease_applies_to_all_packages() {
    let packages = vec![make_package("crate-a", "1.0.0"), make_package("crate-b", "2.0.0")];
    let cli_input = cli(&[], Some(PrereleaseSpec::Beta), &[], false);

    let result = ReleaseValidator::validate(&cli_input, None, None, &packages, &ProjectKind::VirtualWorkspace);

    assert!(result.is_ok());
    let config = result.expect("validation should pass");
    for pkg in &packages {
        let pkg_config = config.per_package().get(&pkg.name).expect("each package should have config");
        assert!(matches!(pkg_config.prerelease, Some(PrereleaseSpec::Beta)));
    }
}

#[test]
fn graduate_all_applies_to_zero_versions_only() {
    let packages = vec![make_package("zero-crate", "0.5.0"), make_package("stable-crate", "1.0.0")];
    let cli_input = cli(&[], None, &[], true);

    let result = ReleaseValidator::validate(&cli_input, None, None, &packages, &ProjectKind::SinglePackage);

    assert!(result.is_ok());
    let config = result.expect("validation should pass");
    assert!(config.per_package().get("zero-crate").is_some_and(|c| c.graduate_zero), "zero version should graduate");
    let stable_config = config.per_package().get("stable-crate");
    assert!(stable_config.is_none() || !stable_config.is_some_and(|c| c.graduate_zero), "stable version should not graduate");
}

#[test]
fn conflicting_prerelease_tag_display() {
    let error = ValidationError::ConflictingPrereleaseTag {
        package: "my-crate".to_string(),
        cli_tag: "beta".to_string(),
        toml_tag: "alpha".to_string(),
    };

    let display = error.to_string();

    assert!(display.contains("my-crate"));
    assert!(display.contains("beta"));
    assert!(display.contains("alpha"));
    assert!(display.contains("conflicting"));
}

#[test]
fn conflicting_prerelease_tag_tip() {
    let error = ValidationError::ConflictingPrereleaseTag {
        package: "my-crate".to_string(),
        cli_tag: "beta".to_string(),
        toml_tag: "alpha".to_string(),
    };

    let tip = error.tip();

    assert!(tip.contains("cargo changeset manage pre-release"));
    assert!(tip.contains("--remove my-crate"));
}

#[test]
fn cannot_graduate_from_prerelease_display() {
    let error = ValidationError::CannotGraduateFromPrerelease {
        package: "my-crate".to_string(),
        current_version: Version::parse("0.5.0-alpha.1").expect("valid version"),
    };

    let display = error.to_string();

    assert!(display.contains("my-crate"));
    assert!(display.contains("prerelease"));
}

#[test]
fn cannot_graduate_from_prerelease_tip() {
    let error = ValidationError::CannotGraduateFromPrerelease {
        package: "my-crate".to_string(),
        current_version: Version::parse("0.5.0-alpha.1").expect("valid version"),
    };

    let tip = error.tip();

    assert!(tip.contains("release"));
    assert!(tip.contains("my-crate"));
}

#[test]
fn graduate_requires_crates_in_workspace_display() {
    let display = ValidationError::GraduateRequiresCratesInWorkspace.to_string();

    assert!(display.contains("--graduate"));
    assert!(display.contains("workspace"));
}

#[test]
fn graduate_requires_crates_in_workspace_tip() {
    let tip = ValidationError::GraduateRequiresCratesInWorkspace.tip();

    assert!(tip.contains("--graduate"));
}

#[test]
fn package_not_found_display() {
    let error = ValidationError::PackageNotFound {
        name: "missing".to_string(),
        available: vec!["crate-a".to_string(), "crate-b".to_string()],
    };

    let display = error.to_string();

    assert!(display.contains("missing"));
    assert!(display.contains("not found"));
}

#[test]
fn package_not_found_tip() {
    let error = ValidationError::PackageNotFound {
        name: "missing".to_string(),
        available: vec!["crate-a".to_string(), "crate-b".to_string()],
    };

    let tip = error.tip();

    assert!(tip.contains("missing"));
    assert!(tip.contains("crate-a"));
    assert!(tip.contains("crate-b"));
    assert_eq!(tip, "Package 'missing' not found. Available: crate-a, crate-b");
}

#[test]
fn cannot_graduate_stable_version_display() {
    let error = ValidationError::CannotGraduateStableVersion {
        package: "my-crate".to_string(),
        version: Version::parse("2.0.0").expect("valid version"),
    };

    let display = error.to_string();

    assert!(display.contains("my-crate"));
    assert!(display.contains("stable"));
    assert!(display.contains("2.0.0"));
}

#[test]
fn cannot_graduate_stable_version_tip() {
    let error = ValidationError::CannotGraduateStableVersion {
        package: "my-crate".to_string(),
        version: Version::parse("2.0.0").expect("valid version"),
    };

    let tip = error.tip();

    assert!(tip.contains("my-crate"));
    assert!(tip.contains("0.x"));
}

#[test]
fn invalid_prerelease_tag_display() {
    let error = ValidationError::InvalidPrereleaseTag {
        package: "my-crate".to_string(),
        tag: "bad.tag".to_string(),
        source: PrereleaseSpecParseError { input: "bad.tag".to_string() },
    };

    let display = error.to_string();

    assert!(display.contains("my-crate"));
    assert!(display.contains("bad.tag"));
    assert!(display.contains("invalid"));
}

#[test]
fn invalid_prerelease_tag_tip() {
    let error = ValidationError::InvalidPrereleaseTag {
        package: "my-crate".to_string(),
        tag: "bad.tag".to_string(),
        source: PrereleaseSpecParseError { input: "bad.tag".to_string() },
    };

    let tip = error.tip();

    assert!(tip.contains("--remove my-crate"));
    assert!(tip.contains("re-add"));
}

#[test]
fn from_vec_creates_with_single_error() {
    let collection = ValidationErrors::from_vec(vec![ValidationError::GraduateRequiresCratesInWorkspace]);

    assert_eq!(collection.len(), 1);
}

#[test]
fn from_vec_creates_with_multiple_errors() {
    let errors = vec![
        ValidationError::GraduateRequiresCratesInWorkspace,
        ValidationError::PackageNotFound { name: "test".to_string(), available: vec![] },
    ];

    let collection = ValidationErrors::from_vec(errors);

    assert_eq!(collection.len(), 2);
}

#[test]
fn try_from_vec_returns_none_for_empty() {
    let errors: Vec<ValidationError> = vec![];

    assert!(ValidationErrors::try_from_vec(errors).is_none());
}

#[test]
fn try_from_vec_returns_some_for_nonempty() {
    let result = ValidationErrors::try_from_vec(vec![ValidationError::GraduateRequiresCratesInWorkspace]);

    assert!(result.is_some());
    assert_eq!(result.expect("should have errors").len(), 1);
}

#[test]
fn into_vec_returns_all_errors() {
    let errors = vec![
        ValidationError::GraduateRequiresCratesInWorkspace,
        ValidationError::PackageNotFound { name: "test".to_string(), available: vec![] },
    ];

    let vec = ValidationErrors::from_vec(errors).into_vec();

    assert_eq!(vec.len(), 2);
}

#[test]
fn iter_yields_all_errors() {
    let errors = vec![
        ValidationError::GraduateRequiresCratesInWorkspace,
        ValidationError::PackageNotFound { name: "test".to_string(), available: vec![] },
    ];

    let collection = ValidationErrors::from_vec(errors);
    let count = collection.iter().into_iter().count();

    assert_eq!(count, 2);
}

#[test]
fn display_shows_all_errors_with_tips() {
    let errors = vec![
        ValidationError::GraduateRequiresCratesInWorkspace,
        ValidationError::PackageNotFound { name: "test".to_string(), available: vec!["crate-a".to_string()] },
    ];

    let display = ValidationErrors::from_vec(errors).to_string();

    assert!(display.contains("2 error(s)"));
    assert!(display.contains("Tip:"));
    assert!(display.contains("--graduate"));
    assert!(display.starts_with("validation failed with 2 error(s):\n  1. --graduate requires crate names in workspace\n"));
}

#[test]
fn into_iterator_for_owned() {
    let collection = ValidationErrors::from_vec(vec![ValidationError::GraduateRequiresCratesInWorkspace]);

    assert_eq!(collection.into_vec().into_iter().count(), 1);
}

#[test]
fn into_iterator_for_ref() {
    let errors = vec![ValidationError::GraduateRequiresCratesInWorkspace];
    let collection = ValidationErrors::from_vec(errors);

    let count = (&collection).iter().into_iter().count();

    assert_eq!(count, 1);
}

#[test]
fn empty_inputs_produce_empty_config() {
    let packages = vec![make_package("crate-a", "1.0.0")];

    let config = build_release_config(&empty_cli_input(), None, None, &packages);

    assert!(config.per_package().is_empty());
}

#[test]
fn toml_prerelease_specs_are_applied() {
    let mut state = PrereleaseState::new();
    state.insert("crate-a".to_string(), "alpha".to_string());
    let packages = vec![make_package("crate-a", "1.0.0")];

    let config = build_release_config(&empty_cli_input(), Some(&state), None, &packages);

    assert_eq!(config.per_package().get("crate-a").expect("configured").prerelease(), &Some(PrereleaseSpec::Alpha));
}

#[test]
fn cli_prerelease_overrides_toml() {
    let cli_input = cli(&[("crate-a", PrereleaseSpec::Beta)], None, &[], false);
    let mut state = PrereleaseState::new();
    state.insert("crate-a".to_string(), "alpha".to_string());
    let packages = vec![make_package("crate-a", "1.0.0")];

    let config = build_release_config(&cli_input, Some(&state), None, &packages);

    assert_eq!(config.per_package().get("crate-a").expect("configured").prerelease(), &Some(PrereleaseSpec::Beta));
}

#[test]
fn config_builder_global_prerelease_applies_to_all_packages() {
    let cli_input = cli(&[], Some(PrereleaseSpec::Rc), &[], false);
    let packages = vec![make_package("crate-a", "1.0.0"), make_package("crate-b", "2.0.0")];

    let config = build_release_config(&cli_input, None, None, &packages);

    assert_eq!(config.per_package().get("crate-a").expect("configured").prerelease(), &Some(PrereleaseSpec::Rc));
    assert_eq!(config.per_package().get("crate-b").expect("configured").prerelease(), &Some(PrereleaseSpec::Rc));
}

#[test]
fn graduation_state_marks_packages() {
    let mut state = GraduationState::new();
    state.add("crate-a".to_string());
    let packages = vec![make_package("crate-a", "0.5.0")];

    let config = build_release_config(&empty_cli_input(), None, Some(&state), &packages);

    assert!(config.per_package().get("crate-a").expect("configured").graduate_zero());
}

#[test]
fn graduate_all_marks_zero_version_packages() {
    let cli_input = cli(&[], None, &[], true);
    let packages = vec![make_package("crate-a", "0.5.0"), make_package("crate-b", "1.0.0")];

    let config = build_release_config(&cli_input, None, None, &packages);

    assert!(config.per_package().get("crate-a").expect("configured").graduate_zero());
    assert!(!config.per_package().contains_key("crate-b"));
}

#[test]
fn cli_graduate_marks_specific_packages() {
    let cli_input = cli(&[], None, &["crate-a"], false);
    let packages = vec![make_package("crate-a", "0.5.0")];

    let config = build_release_config(&cli_input, None, None, &packages);

    assert!(config.per_package().get("crate-a").expect("configured").graduate_zero());
}

#[test]
fn empty_project_error_includes_path() {
    let err = OperationError::EmptyProject("/my/project".to_string());

    assert!(err.to_string().contains("/my/project"));
}

#[test]
fn unknown_package_error_includes_name_and_available() {
    let err = OperationError::UnknownPackage { name: "missing".to_string(), available: "foo, bar".to_string() };

    let msg = err.to_string();

    assert!(msg.contains("missing"));
    assert!(msg.contains("foo, bar"));
}

#[test]
fn cancelled_error_message() {
    assert!(OperationError::Cancelled.to_string().contains("cancelled"));
}

#[test]
fn version_parse_error_includes_version_and_context() {
    let err = OperationError::VersionParse { version: "not-a-version".to_string(), context: "test context".to_string() };

    assert!(err.to_string().contains("not-a-version"));
    assert!(err.to_string().contains("test context"));
}

#[test]
fn parse_prerelease_tag_succeeds_for_valid_tag() {
    let spec = parse_prerelease_tag("alpha").expect("should parse valid tag");

    assert_eq!(spec.identifier(), "alpha");
}

#[test]
fn parse_prerelease_tag_returns_error_for_invalid_tag() {
    let err = parse_prerelease_tag("bad.tag").expect_err("should fail for invalid tag");

    assert!(matches!(err, OperationError::InvalidPrereleaseTag { ref tag, .. } if tag == "bad.tag"));
}

#[test]
fn inherited_versions_error_lists_packages() {
    let err = OperationError::InheritedVersionsRequireConvert { packages: vec!["a".to_string(), "b".to_string()] };

    assert_eq!(err.to_string(), "packages with inherited versions require --convert flag: a, b");
}

#[test]
fn builder_defaults_all_false() {
    let input = ReleaseInputBuilder::default().build().expect("all fields have defaults");

    assert!(!input.dry_run());
    assert!(!input.convert_inherited());
    assert!(!input.no_commit());
    assert!(!input.no_tags());
    assert!(!input.keep_changesets());
    assert!(!input.force());
    assert!(!input.graduate_all());
    assert!(input.per_package_config().is_empty());
    assert!(input.global_prerelease().is_none());
}

#[test]
fn builder_sets_global_prerelease() {
    let input = ReleaseInputBuilder::default().global_prerelease(Some(PrereleaseSpec::Alpha)).build().expect("all fields have defaults");

    let prerelease = input.global_prerelease();
    assert!(prerelease.is_some());
    assert_eq!(prerelease.expect("should have prerelease").identifier(), "alpha");
}

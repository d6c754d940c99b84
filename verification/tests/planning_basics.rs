use changeset_operations::changelog::{ChangesetAggregator, ReleaseDate};
use changeset_operations::error::OperationError;
use changeset_operations::model::{ChangeCategory, Changeset, NoneBumpBehavior, PackageInfo, PackageRelease};
use changeset_operations::none_bump::{apply_none_bump_behavior, find_none_only_packages};
use changeset_operations::planner::VersionPlanner;
use changeset_operations::version::{BumpType, Version};

fn make_package(name: &str, version: &str) -> PackageInfo {
    PackageInfo { name: name.to_string(), version: Version::parse(version).expect("valid version"), path: format!("/mock/crates/{name}") }
}

fn make_changeset(package_name: &str, bump: BumpType, summary: &str) -> Changeset {
    make_multi_changeset(vec![(package_name, bump)], summary)
}

fn make_multi_changeset(releases: Vec<(&str, BumpType)>, summary: &str) -> Changeset {
    Changeset {
        summary: summary.to_string(),
        releases: releases.into_iter().map(|(name, bump)| PackageRelease { name: name.to_string(), bump_type: bump }).collect(),
        category: ChangeCategory::Changed,
        consumed_for_prerelease: None,
        graduate: false,
    }
}

fn make_category_changeset(packages: &[&str], category: ChangeCategory, summary: &str) -> Changeset {
    Changeset {
        summary: summary.to_string(),
        releases: packages.iter().map(|name| PackageRelease { name: name.to_string(), bump_type: BumpType::Patch }).collect(),
        category,
        consumed_for_prerelease: None,
        graduate: false,
    }
}

fn make_none_changeset(summary: &str, category: ChangeCategory, releases: Vec<(&str, BumpType)>) -> Changeset {
    Changeset {
        summary: summary.to_string(),
        category,
        releases: releases.into_iter().map(|(name, bump_type)| PackageRelease { name: name.to_string(), bump_type }).collect(),
        consumed_for_prerelease: None,
        graduate: false,
    }
}

fn test_date() -> ReleaseDate {
    ReleaseDate { year: 2025, month: 1, day: 15 }
}

fn semver(v: &Version) -> semver::Version {
    semver::Version::parse(&v.to_string()).expect("valid")
}

#[test]
fn empty_aggregator_returns_none() {
    let aggregator = ChangesetAggregator::new();

    let release = aggregator.build_package_release("my-crate", &Version::new(1, 0, 0), test_date());

    assert!(release.is_none());
}

#[test]
fn single_changeset_creates_entry() {
    let mut aggregator = ChangesetAggregator::new();
    let changeset = make_category_changeset(&["my-crate"], ChangeCategory::Fixed, "Fixed a bug");

    aggregator.add_changeset(&changeset);

    let release = aggregator.build_package_release("my-crate", &Version::new(1, 0, 0), test_date()).expect("release should exist");
    assert_eq!(release.entries.len(), 1);
    assert_eq!(release.entries[0].category, ChangeCategory::Fixed);
    assert_eq!(release.entries[0].description, "Fixed a bug");
    assert!(release.entries[0].package.is_none());
}

#[test]
fn multiple_changesets_same_package() {
    let mut aggregator = ChangesetAggregator::new();

    aggregator.add_changeset(&make_category_changeset(&["my-crate"], ChangeCategory::Fixed, "Fix 1"));
    aggregator.add_changeset(&make_category_changeset(&["my-crate"], ChangeCategory::Added, "Feature 1"));

    let release = aggregator.build_package_release("my-crate", &Version::new(1, 0, 0), test_date()).expect("release should exist");
    assert_eq!(release.entries.len(), 2);
}

#[test]
fn changeset_affecting_multiple_packages() {
    let mut aggregator = ChangesetAggregator::new();
    let changeset = make_category_changeset(&["crate-a", "crate-b"], ChangeCategory::Changed, "Updated both");

    aggregator.add_changeset(&changeset);

    let release_a = aggregator.build_package_release("crate-a", &Version::new(1, 0, 0), test_date()).expect("release should exist");
    let release_b = aggregator.build_package_release("crate-b", &Version::new(2, 0, 0), test_date()).expect("release should exist");
    assert_eq!(release_a.entries.len(), 1);
    assert_eq!(release_b.entries.len(), 1);
    assert_eq!(release_a.version, Version::new(1, 0, 0));
    assert_eq!(release_b.version, Version::new(2, 0, 0));
}

#[test]
fn categories_preserved() {
    let mut aggregator = ChangesetAggregator::new();

    aggregator.add_changeset(&make_category_changeset(&["my-crate"], ChangeCategory::Security, "Security fix"));

    let release = aggregator.build_package_release("my-crate", &Version::new(1, 0, 0), test_date()).expect("release should exist");
    assert_eq!(release.entries[0].category, ChangeCategory::Security);
}

#[test]
fn build_root_release_prefixes_packages() {
    let mut aggregator = ChangesetAggregator::new();
    aggregator.add_changeset(&make_category_changeset(&["crate-a"], ChangeCategory::Added, "Feature A"));
    aggregator.add_changeset(&make_category_changeset(&["crate-b"], ChangeCategory::Fixed, "Fix B"));
    let packages = vec![("crate-a".to_string(), Version::new(1, 1, 0)), ("crate-b".to_string(), Version::new(2, 0, 1))];

    let release = aggregator.build_root_release(&Version::new(1, 0, 0), test_date(), &packages).expect("release should exist");

    assert_eq!(release.entries.len(), 2);
    assert!(release.entries.iter().any(|e| e.package.as_deref() == Some("crate-a")), "Should have crate-a entry");
    assert!(release.entries.iter().any(|e| e.package.as_deref() == Some("crate-b")), "Should have crate-b entry");
}

#[test]
fn root_release_empty_when_no_entries() {
    let aggregator = ChangesetAggregator::new();
    let packages = vec![("my-crate".to_string(), Version::new(1, 0, 0))];

    let release = aggregator.build_root_release(&Version::new(1, 0, 0), test_date(), &packages);

    assert!(release.is_none());
}

#[test]
fn dependency_update_entries_fill_the_template() {
    let mut aggregator = ChangesetAggregator::new();
    let deps = vec![("core".to_string(), Version::new(1, 2, 0))];

    aggregator.add_dependency_update_entries("app", &deps, "Updated dependency `{dependency}` to v{version}");

    let release = aggregator.build_package_release("app", &Version::new(2, 0, 1), test_date()).expect("release should exist");
    assert_eq!(release.entries.len(), 1);
    assert_eq!(release.entries[0].category, ChangeCategory::Changed);
    assert_eq!(release.entries[0].description, "Updated dependency `core` to v1.2.0");
}

#[test]
fn allow_passes_through_unchanged() {
    let changesets = vec![make_none_changeset("fix a bug", ChangeCategory::Fixed, vec![("crate-a", BumpType::NoBump)])];
    let expected = changesets.clone();

    let result = apply_none_bump_behavior(changesets, NoneBumpBehavior::Allow, "auto").expect("allowed");

    assert_eq!(result, expected);
}

#[test]
fn promote_rewrites_all_none_changeset_to_patch() {
    let changesets = vec![make_none_changeset(
        "original summary",
        ChangeCategory::Fixed,
        vec![("crate-a", BumpType::NoBump), ("crate-b", BumpType::NoBump)],
    )];

    let result = apply_none_bump_behavior(changesets, NoneBumpBehavior::PromoteToPatch, "auto").expect("promoted");

    assert_eq!(result.len(), 1);
    assert!(result[0].releases.iter().all(|r| r.bump_type == BumpType::Patch));
}

#[test]
fn promote_uses_custom_message_for_all_none_changesets() {
    let changesets = vec![make_none_changeset("original summary", ChangeCategory::Fixed, vec![("crate-a", BumpType::NoBump)])];

    let result = apply_none_bump_behavior(changesets, NoneBumpBehavior::PromoteToPatch, "promoted message").expect("promoted");

    assert_eq!(result.len(), 1);
    assert_eq!(result[0].summary, "promoted message");
    assert_eq!(result[0].category, ChangeCategory::Changed);
}

#[test]
fn promote_splits_mixed_changeset_into_two() {
    let changesets = vec![make_none_changeset(
        "mixed change",
        ChangeCategory::Fixed,
        vec![("crate-a", BumpType::Patch), ("crate-b", BumpType::NoBump)],
    )];

    let result = apply_none_bump_behavior(changesets, NoneBumpBehavior::PromoteToPatch, "auto").expect("promoted");

    assert_eq!(result.len(), 2);
    let original = &result[0];
    assert_eq!(original.summary, "mixed change");
    assert_eq!(original.category, ChangeCategory::Fixed);
    assert_eq!(original.releases.len(), 1);
    assert_eq!(original.releases[0].name, "crate-a");
    assert_eq!(original.releases[0].bump_type, BumpType::Patch);
    let promoted = &result[1];
    assert_eq!(promoted.summary, "auto");
    assert_eq!(promoted.category, ChangeCategory::Changed);
    assert_eq!(promoted.releases.len(), 1);
    assert_eq!(promoted.releases[0].name, "crate-b");
    assert_eq!(promoted.releases[0].bump_type, BumpType::Patch);
    assert_eq!(promoted.consumed_for_prerelease, None);
    assert!(!promoted.graduate);
}

#[test]
fn promote_preserves_no_none_changeset_unchanged() {
    let changesets = vec![make_none_changeset("a real change", ChangeCategory::Added, vec![("crate-a", BumpType::Minor)])];
    let expected = changesets.clone();

    let result = apply_none_bump_behavior(changesets, NoneBumpBehavior::PromoteToPatch, "auto").expect("promoted");

    assert_eq!(result, expected);
}

#[test]
fn disallow_errors_on_none_only_packages() {
    let changesets = vec![make_none_changeset("internal change", ChangeCategory::Changed, vec![("crate-a", BumpType::NoBump)])];

    let result = apply_none_bump_behavior(changesets, NoneBumpBehavior::Disallow, "auto");

    assert!(matches!(
        result,
        Err(OperationError::NoneBumpDisallowed { ref packages }) if packages.contains(&"crate-a".to_string())
    ));
}

#[test]
fn disallow_permits_mixed_bumps() {
    let changesets = vec![
        make_none_changeset("first", ChangeCategory::Changed, vec![("crate-a", BumpType::Patch)]),
        make_none_changeset("second", ChangeCategory::Changed, vec![("crate-a", BumpType::NoBump)]),
    ];
    let expected = changesets.clone();

    let result = apply_none_bump_behavior(changesets, NoneBumpBehavior::Disallow, "auto").expect("allowed");

    assert_eq!(result, expected);
}

#[test]
fn empty_changeset_list_returns_empty_for_all_behaviors() {
    for behavior in [NoneBumpBehavior::Allow, NoneBumpBehavior::Disallow, NoneBumpBehavior::PromoteToPatch] {
        let result = apply_none_bump_behavior(vec![], behavior, "auto").expect("empty input");
        assert!(result.is_empty());
    }
}

#[test]
fn disallow_errors_with_multiple_none_packages_sorted() {
    let changesets = vec![
        make_none_changeset("change b", ChangeCategory::Changed, vec![("zeta-crate", BumpType::NoBump)]),
        make_none_changeset("change a", ChangeCategory::Changed, vec![("alpha-crate", BumpType::NoBump)]),
    ];

    let result = apply_none_bump_behavior(changesets, NoneBumpBehavior::Disallow, "auto");

    match result {
        Err(OperationError::NoneBumpDisallowed { packages }) => {
            assert_eq!(packages, vec!["alpha-crate", "zeta-crate"]);
        },
        other => panic!("Expected NoneBumpDisallowed error, got {other:?}"),
    }
}

#[test]
fn find_none_only_packages_returns_empty_for_empty_input() {
    assert!(find_none_only_packages(&vec![]).is_empty());
}

#[test]
fn plan_releases_empty_changesets_returns_empty_plan() {
    let packages = vec![make_package("my-crate", "1.0.0")];

    let plan = VersionPlanner::plan_releases(&vec![], &packages);

    assert!(plan.releases.is_empty());
    assert!(plan.unknown_packages.is_empty());
}

#[test]
fn plan_releases_single_package_single_bump() {
    let packages = vec![make_package("my-crate", "1.0.0")];
    let changesets = vec![make_changeset("my-crate", BumpType::Patch, "Fix bug")];

    let plan = VersionPlanner::plan_releases(&changesets, &packages);

    assert_eq!(plan.releases.len(), 1);
    assert!(plan.unknown_packages.is_empty());
    let release = &plan.releases[0];
    assert_eq!(release.name, "my-crate");
    assert_eq!(release.current_version, Version::new(1, 0, 0));
    assert_eq!(release.new_version, Version::new(1, 0, 1));
    assert_eq!(release.bump_type, BumpType::Patch);
}

#[test]
fn plan_releases_single_package_takes_max_bump() {
    let packages = vec![make_package("my-crate", "1.0.0")];
    let changesets = vec![
        make_changeset("my-crate", BumpType::Patch, "Fix bug"),
        make_changeset("my-crate", BumpType::Minor, "Add feature"),
        make_changeset("my-crate", BumpType::Patch, "Another fix"),
    ];

    let plan = VersionPlanner::plan_releases(&changesets, &packages);

    assert_eq!(plan.releases.len(), 1);
    assert_eq!(plan.releases[0].new_version, Version::new(1, 1, 0));
    assert_eq!(plan.releases[0].bump_type, BumpType::Minor);
}

#[test]
fn plan_releases_multiple_packages_independent_bumps() {
    let packages = vec![make_package("crate-a", "1.0.0"), make_package("crate-b", "2.5.3")];
    let changesets = vec![
        make_changeset("crate-a", BumpType::Minor, "Add feature to A"),
        make_changeset("crate-b", BumpType::Major, "Breaking change in B"),
    ];

    let plan = VersionPlanner::plan_releases(&changesets, &packages);

    assert_eq!(plan.releases.len(), 2);
    assert!(plan.unknown_packages.is_empty());
    let release_a = plan.releases.iter().find(|r| r.name == "crate-a").expect("crate-a should be in releases");
    assert_eq!(release_a.new_version, Version::new(1, 1, 0));
    let release_b = plan.releases.iter().find(|r| r.name == "crate-b").expect("crate-b should be in releases");
    assert_eq!(release_b.new_version, Version::new(3, 0, 0));
}

#[test]
fn plan_releases_unknown_package_collected_not_errored() {
    let packages = vec![make_package("known-crate", "1.0.0")];
    let changesets = vec![make_changeset("unknown-crate", BumpType::Patch, "Fix")];

    let plan = VersionPlanner::plan_releases(&changesets, &packages);

    assert!(plan.releases.is_empty());
    assert_eq!(plan.unknown_packages, vec!["unknown-crate"]);
}

#[test]
fn plan_releases_mixed_known_and_unknown_packages() {
    let packages = vec![make_package("known-crate", "1.0.0")];
    let changesets = vec![make_multi_changeset(
        vec![("known-crate", BumpType::Minor), ("unknown-crate", BumpType::Patch)],
        "Mixed changes",
    )];

    let plan = VersionPlanner::plan_releases(&changesets, &packages);

    assert_eq!(plan.releases.len(), 1);
    assert_eq!(plan.releases[0].name, "known-crate");
    assert_eq!(plan.unknown_packages, vec!["unknown-crate"]);
}

#[test]
fn aggregate_bumps_collects_all_bump_types() {
    let changesets = vec![
        make_changeset("crate-a", BumpType::Patch, "Fix"),
        make_changeset("crate-a", BumpType::Minor, "Feature"),
        make_changeset("crate-b", BumpType::Major, "Breaking"),
    ];

    let bumps = VersionPlanner::aggregate_bumps(&changesets);

    assert_eq!(bumps["crate-a"], vec![BumpType::Patch, BumpType::Minor]);
    assert_eq!(bumps["crate-b"], vec![BumpType::Major]);
}

#[test]
fn partition_packages_identifies_changed_and_unchanged() {
    let packages = vec![make_package("changed", "1.0.0"), make_package("unchanged", "2.0.0")];
    let changesets = vec![make_changeset("changed", BumpType::Patch, "Fix")];

    let (with_changesets, without) = VersionPlanner::partition_packages(&changesets, &packages);

    assert!(with_changesets.contains(&"changed".to_string()));
    assert!(!with_changesets.contains(&"unchanged".to_string()));
    assert_eq!(without.len(), 1);
    assert_eq!(without[0].name, "unchanged");
}

#[test]
fn plan_releases_handles_prerelease_versions() {
    let packages = vec![make_package("my-crate", "1.0.0-alpha.1")];
    let changesets = vec![make_changeset("my-crate", BumpType::Patch, "Fix")];

    let plan = VersionPlanner::plan_releases(&changesets, &packages);

    assert_eq!(plan.releases.len(), 1);
    let release = &plan.releases[0];
    assert_eq!(release.current_version, Version::parse("1.0.0-alpha.1").expect("valid"));
    assert!(semver(&release.new_version) > semver(&release.current_version));
}

#[test]
fn plan_releases_handles_build_metadata() {
    let packages = vec![make_package("my-crate", "1.0.0+build.123")];
    let changesets = vec![make_changeset("my-crate", BumpType::Minor, "Feature")];

    let plan = VersionPlanner::plan_releases(&changesets, &packages);

    assert_eq!(plan.releases.len(), 1);
    assert_eq!(plan.releases[0].current_version, Version::parse("1.0.0+build.123").expect("valid"));
}

#[test]
fn plan_releases_with_zero_major_version() {
    let packages = vec![make_package("my-crate", "0.1.0")];
    let changesets = vec![make_changeset("my-crate", BumpType::Major, "Breaking")];

    let plan = VersionPlanner::plan_releases(&changesets, &packages);

    assert_eq!(plan.releases.len(), 1);
    assert_eq!(plan.releases[0].current_version, Version::new(0, 1, 0));
    assert_eq!(plan.releases[0].new_version, Version::new(1, 0, 0));
}

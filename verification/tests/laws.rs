use changeset_operations::changelog_plan::max_new_version;
use changeset_operations::config::ZeroVersionBehavior;
use changeset_operations::manage::parse_prerelease_entry;
use changeset_operations::model::PackageVersion;
use changeset_operations::release_state::PrereleaseSpec;
use changeset_operations::text::trim;
use changeset_operations::version::{release_version, BumpType, Version};

fn version(text: &str) -> Version {
    Version::parse(text).expect("valid version")
}

#[test]
fn prerelease_specs_parse_back_from_their_identifiers() {
    let specs = vec![PrereleaseSpec::Alpha, PrereleaseSpec::Beta, PrereleaseSpec::Rc, PrereleaseSpec::Custom("nightly".to_string())];
    for spec in specs {
        let parsed = PrereleaseSpec::parse(&spec.identifier()).expect("identifier is a valid tag");
        assert_eq!(parsed, spec);
    }
}

#[test]
fn custom_spelling_of_a_known_tag_parses_as_the_known_tag() {
    let custom = PrereleaseSpec::Custom("beta".to_string());
    assert_eq!(PrereleaseSpec::parse(&custom.identifier()).expect("valid"), PrereleaseSpec::Beta);
}

#[test]
fn parsed_tags_write_back_unchanged() {
    for tag in ["alpha", "beta", "rc", "dev-1", "nightly"] {
        let spec = PrereleaseSpec::parse(tag).expect("valid tag");
        assert_eq!(spec.to_string(), tag);
    }
}

#[test]
fn prerelease_entry_round_trips() {
    for (name, tag) in [("my-crate", "alpha"), ("x", "y"), ("crate_b", "rc:1")] {
        let entry = format!("{name}:{tag}");
        let (parsed_name, parsed_tag) = parse_prerelease_entry(&entry).expect("entry parses");
        assert_eq!(parsed_name, name);
        assert_eq!(parsed_tag, tag);
    }
}

#[test]
fn trim_is_idempotent() {
    for text in ["  padded  ", "\tline\n", "plain", "   ", ""] {
        let once = trim(text);
        assert_eq!(trim(once), once);
        assert_eq!(once, text.trim());
    }
}

#[test]
fn max_new_version_is_one_of_the_planned_versions() {
    let planned = vec![
        PackageVersion::new("a".to_string(), version("1.0.0"), version("1.2.0"), BumpType::Minor, false),
        PackageVersion::new("b".to_string(), version("2.0.0"), version("2.0.1"), BumpType::Patch, false),
        PackageVersion::new("c".to_string(), version("0.1.0"), version("0.2.0"), BumpType::Minor, false),
    ];
    let max = max_new_version(&planned).expect("planned releases exist");
    assert_eq!(max, version("2.0.1"));
    assert!(planned.iter().any(|p| p.new_version == max));
    assert!(max_new_version(&Vec::new()).is_none());
}

#[test]
fn releases_move_versions_forward() {
    assert_eq!(release_version(&version("1.2.3"), BumpType::Patch, ZeroVersionBehavior::EffectiveMinor).to_string(), "1.2.4");
    assert_eq!(release_version(&version("0.5.0"), BumpType::Major, ZeroVersionBehavior::EffectiveMinor).to_string(), "0.6.0");
    assert_eq!(release_version(&version("0.5.0"), BumpType::Major, ZeroVersionBehavior::AutoPromoteOnMajor).to_string(), "1.0.0");
    assert_eq!(release_version(&version("1.0.0-alpha.1"), BumpType::Minor, ZeroVersionBehavior::EffectiveMinor).to_string(), "1.0.0");
}

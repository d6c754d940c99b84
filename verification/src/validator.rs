//! Release input, its validation against the project and the release
//! state, and the per-package configuration that a valid input yields.
use vstd::prelude::*;

use crate::model::{find_package, package_names, PackageInfo, PackageInfoView, ProjectKind};
use crate::name_map::{ExactClone, NameMap};
use crate::release_state::{
    spec_identifier, valid_prerelease_tag, GraduationState, PrereleaseSpec, PrereleaseSpecParseError, PrereleaseState,
};
use crate::text::{append_decimal, contains_str, insert_sorted, owned, strictly_sorted, views};
use crate::version::{is_prerelease, is_prerelease_spec, is_zero_version, is_zero_version_spec, Version, VersionView};

verus! {

/// How one package is released: as a pre-release, and/or graduating from `0.x`.
#[derive(Debug, PartialEq, Eq)]
pub struct PackageReleaseConfig {
    pub prerelease: Option<PrereleaseSpec>,
    pub graduate_zero: bool,
}

impl ExactClone for PackageReleaseConfig {
    fn exact_clone(&self) -> (r: Self) {
        PackageReleaseConfig {
            prerelease: match &self.prerelease {
                Some(p) => Some(p.clone()),
                None => None,
            },
            graduate_zero: self.graduate_zero,
        }
    }
}

impl PackageReleaseConfig {
    /// Neither a pre-release nor a graduation.
    pub fn new() -> (c: PackageReleaseConfig)
        ensures
            c.prerelease is None,
            !c.graduate_zero,
    {
        PackageReleaseConfig { prerelease: None, graduate_zero: false }
    }

    pub fn prerelease(&self) -> (r: &Option<PrereleaseSpec>)
        ensures
            r == &self.prerelease,
    {
        &self.prerelease
    }

    pub fn graduate_zero(&self) -> (r: bool)
        ensures
            r == self.graduate_zero,
    {
        self.graduate_zero
    }

    pub fn set_prerelease(&mut self, spec: PrereleaseSpec)
        ensures
            final(self).prerelease == Some(spec),
            final(self).graduate_zero == old(self).graduate_zero,
    {
        self.prerelease = Some(spec);
    }

    pub fn set_graduate_zero(&mut self)
        ensures
            final(self).graduate_zero,
            final(self).prerelease == old(self).prerelease,
    {
        self.graduate_zero = true;
    }
}

/// A builder that cannot fail; kept for the shape of the builder API.
#[derive(Debug)]
pub struct BuilderError {
    pub field: String,
}

/// Builds a [`PackageReleaseConfig`]; unset fields take their defaults.
pub struct PackageReleaseConfigBuilder {
    prerelease: Option<PrereleaseSpec>,
    graduate_zero: bool,
}

impl PackageReleaseConfigBuilder {
    pub closed spec fn spec_prerelease(&self) -> Option<PrereleaseSpec> {
        self.prerelease
    }

    pub closed spec fn spec_graduate_zero(&self) -> bool {
        self.graduate_zero
    }

    pub fn default() -> (b: PackageReleaseConfigBuilder)
        ensures
            b.spec_prerelease() is None,
            !b.spec_graduate_zero(),
    {
        PackageReleaseConfigBuilder { prerelease: None, graduate_zero: false }
    }

    pub fn prerelease(self, value: Option<PrereleaseSpec>) -> (b: PackageReleaseConfigBuilder)
        ensures
            b.spec_prerelease() == value,
            b.spec_graduate_zero() == self.spec_graduate_zero(),
    {
        PackageReleaseConfigBuilder { prerelease: value, graduate_zero: self.graduate_zero }
    }

    pub fn graduate_zero(self, value: bool) -> (b: PackageReleaseConfigBuilder)
        ensures
            b.spec_prerelease() == self.spec_prerelease(),
            b.spec_graduate_zero() == value,
    {
        PackageReleaseConfigBuilder { prerelease: self.prerelease, graduate_zero: value }
    }

    pub fn build(self) -> (r: core::result::Result<PackageReleaseConfig, BuilderError>)
        ensures
            r matches Ok(c) && c.prerelease == self.spec_prerelease() && c.graduate_zero == self.spec_graduate_zero(),
    {
        Ok(PackageReleaseConfig { prerelease: self.prerelease, graduate_zero: self.graduate_zero })
    }
}

/// What the caller asks of a release.
pub struct ReleaseInput {
    dry_run: bool,
    convert_inherited: bool,
    no_commit: bool,
    no_tags: bool,
    keep_changesets: bool,
    force: bool,
    per_package_config: NameMap<PackageReleaseConfig>,
    global_prerelease: Option<PrereleaseSpec>,
    graduate_all: bool,
}

impl ReleaseInput {
    pub closed spec fn spec_dry_run(&self) -> bool { self.dry_run }
    pub closed spec fn spec_convert_inherited(&self) -> bool { self.convert_inherited }
    pub closed spec fn spec_no_commit(&self) -> bool { self.no_commit }
    pub closed spec fn spec_no_tags(&self) -> bool { self.no_tags }
    pub closed spec fn spec_keep_changesets(&self) -> bool { self.keep_changesets }
    pub closed spec fn spec_force(&self) -> bool { self.force }
    pub closed spec fn spec_graduate_all(&self) -> bool { self.graduate_all }
    pub closed spec fn spec_global_prerelease(&self) -> Option<PrereleaseSpec> { self.global_prerelease }
    pub closed spec fn spec_per_package_config(&self) -> NameMap<PackageReleaseConfig> { self.per_package_config }

    pub fn dry_run(&self) -> (r: bool)
        ensures r == self.spec_dry_run(),
    {
        self.dry_run
    }

    pub fn convert_inherited(&self) -> (r: bool)
        ensures r == self.spec_convert_inherited(),
    {
        self.convert_inherited
    }

    pub fn no_commit(&self) -> (r: bool)
        ensures r == self.spec_no_commit(),
    {
        self.no_commit
    }

    pub fn no_tags(&self) -> (r: bool)
        ensures r == self.spec_no_tags(),
    {
        self.no_tags
    }

    pub fn keep_changesets(&self) -> (r: bool)
        ensures r == self.spec_keep_changesets(),
    {
        self.keep_changesets
    }

    pub fn force(&self) -> (r: bool)
        ensures r == self.spec_force(),
    {
        self.force
    }

    pub fn graduate_all(&self) -> (r: bool)
        ensures r == self.spec_graduate_all(),
    {
        self.graduate_all
    }

    pub fn global_prerelease(&self) -> (r: Option<&PrereleaseSpec>)
        ensures
            r matches Some(p) ==> self.spec_global_prerelease() == Some(*p),
            r is None ==> self.spec_global_prerelease() is None,
    {
        match &self.global_prerelease {
            Some(p) => Some(p),
            None => None,
        }
    }

    pub fn per_package_config(&self) -> (r: &NameMap<PackageReleaseConfig>)
        ensures
            *r == self.spec_per_package_config(),
    {
        &self.per_package_config
    }
    /// The same input with its per-package configuration in canonical
    /// form: each package keeps its configuration.
    pub fn with_valid_config(&self) -> (r: ReleaseInput)
        ensures
            r.spec_per_package_config().wf(),
            forall|k: Seq<char>| #[trigger] r.spec_per_package_config().lookup(k) == self.spec_per_package_config().lookup(k),
            r.spec_dry_run() == self.spec_dry_run(),
            r.spec_convert_inherited() == self.spec_convert_inherited(),
            r.spec_no_commit() == self.spec_no_commit(),
            r.spec_no_tags() == self.spec_no_tags(),
            r.spec_keep_changesets() == self.spec_keep_changesets(),
            r.spec_force() == self.spec_force(),
            r.spec_graduate_all() == self.spec_graduate_all(),
            r.spec_global_prerelease() == self.spec_global_prerelease(),
    {
        ReleaseInput {
            dry_run: self.dry_run,
            convert_inherited: self.convert_inherited,
            no_commit: self.no_commit,
            no_tags: self.no_tags,
            keep_changesets: self.keep_changesets,
            force: self.force,
            per_package_config: self.per_package_config.to_valid(),
            global_prerelease: match &self.global_prerelease {
                Some(p) => Some(p.exact_clone()),
                None => None,
            },
            graduate_all: self.graduate_all,
        }
    }
}

/// Builds a [`ReleaseInput`]; unset fields take their defaults (all off,
/// no per-package settings, no global pre-release).
pub struct ReleaseInputBuilder {
    input: ReleaseInput,
}

impl ReleaseInputBuilder {
    pub closed spec fn spec_input(&self) -> ReleaseInput {
        self.input
    }

    pub fn default() -> (b: ReleaseInputBuilder)
        ensures
            !b.spec_input().spec_dry_run(),
            !b.spec_input().spec_convert_inherited(),
            !b.spec_input().spec_no_commit(),
            !b.spec_input().spec_no_tags(),
            !b.spec_input().spec_keep_changesets(),
            !b.spec_input().spec_force(),
            !b.spec_input().spec_graduate_all(),
            b.spec_input().spec_global_prerelease() is None,
            b.spec_input().spec_per_package_config().wf(),
            b.spec_input().spec_per_package_config().names().len() == 0,
    {
        ReleaseInputBuilder {
            input: ReleaseInput {
                dry_run: false,
                convert_inherited: false,
                no_commit: false,
                no_tags: false,
                keep_changesets: false,
                force: false,
                per_package_config: NameMap::new(),
                global_prerelease: None,
                graduate_all: false,
            },
        }
    }

    pub fn dry_run(self, value: bool) -> (b: ReleaseInputBuilder)
        ensures b.spec_input().spec_dry_run() == value,
    {
        let mut b = self;
        b.input.dry_run = value;
        b
    }

    pub fn convert_inherited(self, value: bool) -> (b: ReleaseInputBuilder)
        ensures b.spec_input().spec_convert_inherited() == value,
    {
        let mut b = self;
        b.input.convert_inherited = value;
        b
    }

    pub fn no_commit(self, value: bool) -> (b: ReleaseInputBuilder)
        ensures b.spec_input().spec_no_commit() == value,
    {
        let mut b = self;
        b.input.no_commit = value;
        b
    }

    pub fn no_tags(self, value: bool) -> (b: ReleaseInputBuilder)
        ensures b.spec_input().spec_no_tags() == value,
    {
        let mut b = self;
        b.input.no_tags = value;
        b
    }

    pub fn keep_changesets(self, value: bool) -> (b: ReleaseInputBuilder)
        ensures b.spec_input().spec_keep_changesets() == value,
    {
        let mut b = self;
        b.input.keep_changesets = value;
        b
    }

    pub fn force(self, value: bool) -> (b: ReleaseInputBuilder)
        ensures b.spec_input().spec_force() == value,
    {
        let mut b = self;
        b.input.force = value;
        b
    }

    pub fn graduate_all(self, value: bool) -> (b: ReleaseInputBuilder)
        ensures b.spec_input().spec_graduate_all() == value,
    {
        let mut b = self;
        b.input.graduate_all = value;
        b
    }

    pub fn global_prerelease(self, value: Option<PrereleaseSpec>) -> (b: ReleaseInputBuilder)
        ensures b.spec_input().spec_global_prerelease() == value,
    {
        let mut b = self;
        b.input.global_prerelease = value;
        b
    }

    pub fn per_package_config(self, value: NameMap<PackageReleaseConfig>) -> (b: ReleaseInputBuilder)
        ensures b.spec_input().spec_per_package_config() == value,
    {
        let mut b = self;
        b.input.per_package_config = value;
        b
    }

    pub fn build(self) -> (r: core::result::Result<ReleaseInput, BuilderError>)
        ensures
            r matches Ok(i) && i == self.spec_input(),
    {
        Ok(self.input)
    }
}

/// The release settings that came from the command line.
#[derive(Debug)]
pub struct ReleaseCliInput {
    cli_prerelease: NameMap<PrereleaseSpec>,
    global_prerelease: Option<PrereleaseSpec>,
    cli_graduate: Vec<String>,
    graduate_all: bool,
}

impl ExactClone for PrereleaseSpec {
    fn exact_clone(&self) -> (r: Self) {
        self.clone()
    }
}

impl ReleaseCliInput {
    pub closed spec fn wf(&self) -> bool {
        self.cli_prerelease.wf() && strictly_sorted(views(self.cli_graduate@))
    }

    /// Per-package pre-release tags.
    pub closed spec fn spec_cli_prerelease(&self) -> NameMap<PrereleaseSpec> {
        self.cli_prerelease
    }

    /// The pre-release tag for every package, if one was given.
    pub closed spec fn spec_global_prerelease(&self) -> Option<PrereleaseSpec> {
        self.global_prerelease
    }

    /// Packages asked to graduate, in name order.
    pub closed spec fn spec_cli_graduate(&self) -> Seq<Seq<char>> {
        views(self.cli_graduate@)
    }

    pub closed spec fn spec_graduate_all(&self) -> bool {
        self.graduate_all
    }

    /// Assembles the settings; a package named twice for graduation counts once.
    pub fn new(
        cli_prerelease: NameMap<PrereleaseSpec>,
        global_prerelease: Option<PrereleaseSpec>,
        cli_graduate: Vec<String>,
        graduate_all: bool,
    ) -> (r: ReleaseCliInput)
        requires
            cli_prerelease.wf(),
        ensures
            r.wf(),
            r.spec_cli_prerelease() == cli_prerelease,
            r.spec_global_prerelease() == global_prerelease,
            forall|k: Seq<char>| r.spec_cli_graduate().contains(k) <==> views(cli_graduate@).contains(k),
            r.spec_graduate_all() == graduate_all,
    {
        let mut names: Vec<String> = Vec::new();
        let mut i: usize = 0;
        while i < cli_graduate.len()
            invariant
                i <= cli_graduate.len(),
                strictly_sorted(views(names@)),
                forall|k: Seq<char>| views(names@).contains(k) <==> views(cli_graduate@.take(i as int)).contains(k),
            decreases cli_graduate.len() - i,
        {
            let ghost names_before = views(names@);
            insert_sorted(&mut names, cli_graduate[i].clone());
            proof {
                assert(views(cli_graduate@.take(i + 1)) =~= views(cli_graduate@.take(i as int)).push(cli_graduate@[i as int]@));
                crate::text::lemma_contains_push(views(cli_graduate@.take(i as int)), cli_graduate@[i as int]@);
            }
            i = i + 1;
        }
        proof {
            assert(cli_graduate@.take(cli_graduate.len() as int) =~= cli_graduate@);
        }
        ReleaseCliInput { cli_prerelease, global_prerelease, cli_graduate: names, graduate_all }
    }

    /// The settings of a release input: the per-package pre-release tags,
    /// the global tag, the packages marked to graduate, and `graduate_all`.
    pub fn from(input: &ReleaseInput) -> (r: ReleaseCliInput)
        requires
            input.spec_per_package_config().wf(),
        ensures
            r.wf(),
            forall|k: Seq<char>| #[trigger] r.spec_cli_prerelease().lookup(k) == match input.spec_per_package_config().lookup(k) {
                Some(c) => c.prerelease,
                None => None,
            },
            forall|k: Seq<char>| r.spec_cli_graduate().contains(k) <==> (input.spec_per_package_config().lookup(k) matches Some(c) && c.graduate_zero),
            r.spec_global_prerelease() == input.spec_global_prerelease(),
            r.spec_graduate_all() == input.spec_graduate_all(),
    {
        let entries = input.per_package_config.entries();
        let mut pre: NameMap<PrereleaseSpec> = NameMap::new();
        let mut grad: Vec<String> = Vec::new();
        let ghost m = input.per_package_config;
        proof {
            m.lemma_wf_facts();
        }
        let mut i: usize = 0;
        while i < entries.len()
            invariant
                i <= entries.len(),
                m == input.per_package_config,
                m.wf(),
                crate::name_map::keyed_views(entries@) == m.pairs(),
                pre.wf(),
                strictly_sorted(views(grad@)),
                strictly_sorted(m.names()),
                m.names().len() == m.pairs().len(),
                forall|j: int| 0 <= j < m.pairs().len() ==> #[trigger] m.pairs()[j].0 == m.names()[j],
                forall|j: int| 0 <= j < m.pairs().len() ==> m.lookup(#[trigger] m.pairs()[j].0) == Some(m.pairs()[j].1),
                forall|k: Seq<char>| (#[trigger] m.lookup(k) is Some) <==> m.names().contains(k),
                forall|k: Seq<char>| #[trigger] pre.lookup(k) == if m.names().take(i as int).contains(k) {
                    match m.lookup(k) { Some(c) => c.prerelease, None => None }
                } else {
                    None
                },
                forall|k: Seq<char>| views(grad@).contains(k) <==> (m.names().take(i as int).contains(k) && (m.lookup(k) matches Some(c) && c.graduate_zero)),
            decreases entries.len() - i,
        {
            let e = &entries[i];
            proof {
                assert(crate::name_map::keyed_views(entries@)[i as int] == m.pairs()[i as int]);
                assert(m.pairs()[i as int].0 == e.0@);
                assert(m.pairs()[i as int].1 == e.1);
                assert(m.names()[i as int] == e.0@);
                assert(m.lookup(m.pairs()[i as int].0) == Some(m.pairs()[i as int].1));
                assert(m.lookup(e.0@) == Some(e.1));
                assert(m.names().take(i + 1) =~= m.names().take(i as int).push(e.0@));
            }
            let ghost pre_old = pre;
            match &e.1.prerelease {
                Some(p) => {
                    pre.insert(e.0.clone(), p.clone());
                },
                None => {},
            }
            if e.1.graduate_zero {
                insert_sorted(&mut grad, e.0.clone());
            }
            proof {
                let t = m.names().take(i as int);
                assert forall|k: Seq<char>| t.push(e.0@).contains(k) <==> (t.contains(k) || k == e.0@) by {
                    if t.push(e.0@).contains(k) {
                        let j = choose|j: int| 0 <= j < t.len() + 1 && t.push(e.0@)[j] == k;
                        if j < t.len() {
                            assert(t[j] == k);
                        }
                    }
                    if t.contains(k) {
                        let j = choose|j: int| 0 <= j < t.len() && t[j] == k;
                        assert(t.push(e.0@)[j] == k);
                    }
                    if k == e.0@ {
                        assert(t.push(e.0@)[t.len() as int] == k);
                    }
                }
                if t.contains(e.0@) {
                    let j = choose|j: int| 0 <= j < t.len() && t[j] == e.0@;
                    assert(m.names()[j] == e.0@);
                    assert(crate::text::seq_lt(m.names()[j], m.names()[i as int]));
                    crate::text::lemma_seq_lt_irreflexive(e.0@);
                }
            }
            i = i + 1;
        }
        proof {
            assert(m.names().take(entries.len() as int) =~= m.names());
        }
        let global = match &input.global_prerelease {
            Some(p) => Some(p.clone()),
            None => None,
        };
        ReleaseCliInput { cli_prerelease: pre, global_prerelease: global, cli_graduate: grad, graduate_all: input.graduate_all }
    }

    pub fn cli_prerelease(&self) -> (r: &NameMap<PrereleaseSpec>)
        ensures
            *r == self.spec_cli_prerelease(),
    {
        &self.cli_prerelease
    }

    pub fn global_prerelease(&self) -> (r: Option<&PrereleaseSpec>)
        ensures
            r matches Some(p) ==> self.spec_global_prerelease() == Some(*p),
            r is None ==> self.spec_global_prerelease() is None,
    {
        match &self.global_prerelease {
            Some(p) => Some(p),
            None => None,
        }
    }

    pub fn cli_graduate(&self) -> (r: &Vec<String>)
        ensures
            views(r@) == self.spec_cli_graduate(),
    {
        &self.cli_graduate
    }

    pub fn graduate_all(&self) -> (r: bool)
        ensures
            r == self.spec_graduate_all(),
    {
        self.graduate_all
    }
}


/// A rule of a release input that does not hold.
#[derive(Debug)]
pub enum ValidationError {
    ConflictingPrereleaseTag { package: String, cli_tag: String, toml_tag: String },
    CannotGraduateFromPrerelease { package: String, current_version: Version },
    GraduateRequiresCratesInWorkspace,
    PackageNotFound { name: String, available: Vec<String> },
    CannotGraduateStableVersion { package: String, version: Version },
    InvalidPrereleaseTag { package: String, tag: String, source: PrereleaseSpecParseError },
}

/// The abstract value of a validation error.
pub enum ValidationErrorView {
    ConflictingPrereleaseTag { package: Seq<char>, cli_tag: Seq<char>, toml_tag: Seq<char> },
    CannotGraduateFromPrerelease { package: Seq<char>, current_version: VersionView },
    GraduateRequiresCratesInWorkspace,
    PackageNotFound { name: Seq<char>, available: Seq<Seq<char>> },
    CannotGraduateStableVersion { package: Seq<char>, version: VersionView },
    /// `source` is the text the tag parser refused.
    InvalidPrereleaseTag { package: Seq<char>, tag: Seq<char>, source: Seq<char> },
}

impl View for ValidationError {
    type V = ValidationErrorView;

    open spec fn view(&self) -> ValidationErrorView {
        match self {
            ValidationError::ConflictingPrereleaseTag { package, cli_tag, toml_tag } => ValidationErrorView::ConflictingPrereleaseTag {
                package: package@,
                cli_tag: cli_tag@,
                toml_tag: toml_tag@,
            },
            ValidationError::CannotGraduateFromPrerelease { package, current_version } => ValidationErrorView::CannotGraduateFromPrerelease {
                package: package@,
                current_version: current_version@,
            },
            ValidationError::GraduateRequiresCratesInWorkspace => ValidationErrorView::GraduateRequiresCratesInWorkspace,
            ValidationError::PackageNotFound { name, available } => ValidationErrorView::PackageNotFound {
                name: name@,
                available: views(available@),
            },
            ValidationError::CannotGraduateStableVersion { package, version } => ValidationErrorView::CannotGraduateStableVersion {
                package: package@,
                version: version@,
            },
            ValidationError::InvalidPrereleaseTag { package, tag, source } => ValidationErrorView::InvalidPrereleaseTag {
                package: package@,
                tag: tag@,
                source: source.input@,
            },
        }
    }
}

pub open spec fn error_views(s: Seq<ValidationError>) -> Seq<ValidationErrorView> {
    s.map_values(|e: ValidationError| e@)
}

/// A non-empty list of validation errors.
#[derive(Debug)]
pub struct ValidationErrors {
    first: ValidationError,
    rest: Vec<ValidationError>,
}

impl View for ValidationErrors {
    type V = Seq<ValidationErrorView>;

    closed spec fn view(&self) -> Seq<ValidationErrorView> {
        seq![self.first@] + error_views(self.rest@)
    }
}

/// The advice that goes with a validation error.
pub open spec fn tip_spec(e: ValidationErrorView) -> Seq<char> {
    match e {
        ValidationErrorView::ConflictingPrereleaseTag { package, toml_tag, .. } => "Run `cargo changeset manage pre-release --remove "@
            + package + "` to clear TOML, or use `--prerelease "@ + package + ":"@ + toml_tag + "` to match"@,
        ValidationErrorView::CannotGraduateFromPrerelease { package, .. } => "First release "@ + package
            + " to stable with `cargo changeset release`, then graduate with `--graduate "@ + package + "`"@,
        ValidationErrorView::GraduateRequiresCratesInWorkspace => "Specify crates: `--graduate crate-a --graduate crate-b`"@,
        ValidationErrorView::PackageNotFound { name, available } => "Package '"@ + name + "' not found. Available: "@
            + crate::text::join_seqs(available, ", "@),
        ValidationErrorView::CannotGraduateStableVersion { package, version } => "Package "@ + package + " is already at "@
            + crate::version::version_text(version) + "; graduation is for 0.x only"@,
        ValidationErrorView::InvalidPrereleaseTag { package, .. } => "Run `cargo changeset manage pre-release --remove "@
            + package + "` and re-add with a valid tag"@,
    }
}

/// The message of a validation error.
pub open spec fn message_spec(e: ValidationError) -> Seq<char> {
    match e {
        ValidationError::ConflictingPrereleaseTag { package, cli_tag, toml_tag } => "conflicting prerelease tag for '"@
            + package@ + "': CLI specifies '"@ + cli_tag@ + "', pre-release.toml specifies '"@ + toml_tag@ + "'"@,
        ValidationError::CannotGraduateFromPrerelease { package, current_version } => "cannot graduate '"@ + package@
            + "': currently in prerelease ("@ + crate::version::version_text(current_version@) + ")"@,
        ValidationError::GraduateRequiresCratesInWorkspace => "--graduate requires crate names in workspace"@,
        ValidationError::PackageNotFound { name, .. } => "package '"@ + name@ + "' not found in workspace"@,
        ValidationError::CannotGraduateStableVersion { package, version } => "cannot graduate '"@ + package@
            + "': already at stable version "@ + crate::version::version_text(version@),
        ValidationError::InvalidPrereleaseTag { package, tag, source } => "invalid prerelease tag '"@ + tag@
            + "' in pre-release.toml for package '"@ + package@ + "': "@ + ("invalid pre-release tag '"@ + source.input@
            + "'"@),
    }
}

/// The report of several validation errors: a count, then each error,
/// numbered from one, with its tip.
pub open spec fn report_spec(errors: Seq<ValidationError>, k: nat) -> Seq<char>
    decreases k,
{
    if k == 0 {
        "validation failed with "@ + crate::text::decimal(errors.len()) + " error(s):\n"@
    } else {
        report_spec(errors, (k - 1) as nat) + "  "@ + crate::text::decimal(k) + ". "@ + message_spec(errors[k - 1])
            + "\n     Tip: "@ + tip_spec(errors[k - 1]@) + "\n"@
    }
}

impl ValidationError {
    /// The message of the error.
    pub fn to_string(&self) -> (r: String)
        ensures
            r@ == message_spec(*self),
    {
        let mut s = String::new();
        match self {
            ValidationError::ConflictingPrereleaseTag { package, cli_tag, toml_tag } => {
                s.append("conflicting prerelease tag for '");
                s.append(package.as_str());
                s.append("': CLI specifies '");
                s.append(cli_tag.as_str());
                s.append("', pre-release.toml specifies '");
                s.append(toml_tag.as_str());
                s.append("'");
            },
            ValidationError::CannotGraduateFromPrerelease { package, current_version } => {
                s.append("cannot graduate '");
                s.append(package.as_str());
                s.append("': currently in prerelease (");
                let text = current_version.to_string();
                s.append(text.as_str());
                s.append(")");
            },
            ValidationError::GraduateRequiresCratesInWorkspace => {
                s.append("--graduate requires crate names in workspace");
            },
            ValidationError::PackageNotFound { name, .. } => {
                s.append("package '");
                s.append(name.as_str());
                s.append("' not found in workspace");
            },
            ValidationError::CannotGraduateStableVersion { package, version } => {
                s.append("cannot graduate '");
                s.append(package.as_str());
                s.append("': already at stable version ");
                let text = version.to_string();
                s.append(text.as_str());
            },
            ValidationError::InvalidPrereleaseTag { package, tag, source } => {
                s.append("invalid prerelease tag '");
                s.append(tag.as_str());
                s.append("' in pre-release.toml for package '");
                s.append(package.as_str());
                s.append("': ");
                let text = source.to_string();
                s.append(text.as_str());
            },
        }
        proof {
            assert(s@ =~= message_spec(*self));
        }
        s
    }

    /// What to do about the error.
    pub fn tip(&self) -> (r: String)
        ensures
            r@ == tip_spec(self@),
    {
        let mut s = String::new();
        match self {
            ValidationError::ConflictingPrereleaseTag { package, toml_tag, .. } => {
                s.append("Run `cargo changeset manage pre-release --remove ");
                s.append(package.as_str());
                s.append("` to clear TOML, or use `--prerelease ");
                s.append(package.as_str());
                s.append(":");
                s.append(toml_tag.as_str());
                s.append("` to match");
            },
            ValidationError::CannotGraduateFromPrerelease { package, .. } => {
                s.append("First release ");
                s.append(package.as_str());
                s.append(" to stable with `cargo changeset release`, then graduate with `--graduate ");
                s.append(package.as_str());
                s.append("`");
            },
            ValidationError::GraduateRequiresCratesInWorkspace => {
                s.append("Specify crates: `--graduate crate-a --graduate crate-b`");
            },
            ValidationError::PackageNotFound { name, available } => {
                s.append("Package '");
                s.append(name.as_str());
                s.append("' not found. Available: ");
                let listed = crate::text::join_strings(available, ", ");
                s.append(listed.as_str());
            },
            ValidationError::CannotGraduateStableVersion { package, version } => {
                s.append("Package ");
                s.append(package.as_str());
                s.append(" is already at ");
                let text = version.to_string();
                s.append(text.as_str());
                s.append("; graduation is for 0.x only");
            },
            ValidationError::InvalidPrereleaseTag { package, .. } => {
                s.append("Run `cargo changeset manage pre-release --remove ");
                s.append(package.as_str());
                s.append("` and re-add with a valid tag");
            },
        }
        proof {
            assert(s@ =~= tip_spec(self@));
        }
        s
    }
}

impl ValidationErrors {
    /// Wraps a non-empty list of errors.
    pub fn from_vec(errors: Vec<ValidationError>) -> (r: ValidationErrors)
        requires
            errors@.len() > 0,
        ensures
            r@ == error_views(errors@),
    {
        let mut errors = errors;
        let ghost all = errors@;
        let first = errors.remove(0);
        proof {
            assert(error_views(all) =~= seq![first@] + error_views(errors@));
        }
        ValidationErrors { first, rest: errors }
    }

    /// Wraps a list of errors unless it is empty.
    pub fn try_from_vec(errors: Vec<ValidationError>) -> (r: Option<ValidationErrors>)
        ensures
            r is None <==> errors@.len() == 0,
            r matches Some(e) ==> e@ == error_views(errors@),
    {
        if errors.len() == 0 {
            None
        } else {
            Some(ValidationErrors::from_vec(errors))
        }
    }

    /// The number of errors.
    pub fn len(&self) -> (r: usize)
        requires
            self@.len() <= usize::MAX,
        ensures
            r == self@.len(),
    {
        1 + self.rest.len()
    }

    /// Never empty.
    pub fn is_empty(&self) -> (r: bool)
        ensures
            r == (self@.len() == 0),
            !r,
    {
        false
    }

    /// The errors, in order.
    pub closed spec fn errors(&self) -> Seq<ValidationError> {
        seq![self.first] + self.rest@
    }

    /// The report of all errors with their tips.
    pub fn to_string(&self) -> (r: String)
        requires
            self.errors().len() < u64::MAX,
            self.errors().len() <= usize::MAX,
        ensures
            r@ == report_spec(self.errors(), self.errors().len()),
    {
        let ghost all = self.errors();
        assert(all.len() == 1 + self.rest@.len());
        let n = 1 + self.rest.len();
        let mut s = String::new();
        s.append("validation failed with ");
        append_decimal(&mut s, n as u64);
        s.append(" error(s):\n");
        let mut k: usize = 0;
        while k < n
            invariant
                all == self.errors(),
                n == all.len(),
                n < u64::MAX,
                k <= n,
                s@ == report_spec(all, k as nat),
            decreases n - k,
        {
            let e = if k == 0 {
                &self.first
            } else {
                &self.rest[k - 1]
            };
            proof {
                assert(*e == all[k as int]);
            }
            s.append("  ");
            append_decimal(&mut s, (k + 1) as u64);
            s.append(". ");
            let message = e.to_string();
            s.append(message.as_str());
            s.append("\n     Tip: ");
            let tip = e.tip();
            s.append(tip.as_str());
            s.append("\n");
            k = k + 1;
        }
        s
    }

    /// The errors in order, borrowed.
    pub fn iter(&self) -> (r: Vec<&ValidationError>)
        ensures
            r@.len() == self.errors().len(),
            forall|i: int| 0 <= i < r@.len() ==> *(#[trigger] r@[i]) == self.errors()[i],
    {
        let mut r: Vec<&ValidationError> = Vec::new();
        r.push(&self.first);
        let mut i: usize = 0;
        while i < self.rest.len()
            invariant
                i <= self.rest@.len(),
                r@.len() == i + 1,
                *r@[0] == self.first,
                forall|k: int| 0 < k < r@.len() ==> *(#[trigger] r@[k]) == self.rest@[k - 1],
            decreases self.rest.len() - i,
        {
            r.push(&self.rest[i]);
            i = i + 1;
        }
        proof {
            assert forall|k: int| 0 <= k < r@.len() implies *(#[trigger] r@[k]) == self.errors()[k] by {
                if k > 0 {
                    assert(self.errors()[k] == self.rest@[k - 1]);
                }
            }
        }
        r
    }

    /// The errors in order.
    pub fn into_vec(self) -> (r: Vec<ValidationError>)
        ensures
            error_views(r@) == self@,
    {
        let mut r = Vec::new();
        let mut rest = self.rest;
        r.push(self.first);
        let ghost first = r@;
        r.append(&mut rest);
        proof {
            assert(error_views(r@) =~= seq![self.first@] + error_views(self.rest@));
        }
        r
    }
}

/// Wrapping a non-empty list and unwrapping it gives the list back.
pub proof fn law_validation_errors_round_trip(errors: Seq<ValidationError>, wrapped: ValidationErrors)
    requires
        errors.len() > 0,
        wrapped@ == error_views(errors),
    ensures
        wrapped@.len() == errors.len(),
        forall|i: int| 0 <= i < errors.len() ==> wrapped@[i] == errors[i]@,
{
}

/// The first package of a list with the given name.
pub open spec fn first_package(pkgs: Seq<PackageInfo>, name: Seq<char>) -> Option<PackageInfoView>
    decreases pkgs.len(),
{
    if pkgs.len() == 0 {
        None
    } else if pkgs[0].name@ == name {
        Some(pkgs[0]@)
    } else {
        first_package(pkgs.drop_first(), name)
    }
}

pub proof fn lemma_first_package(pkgs: Seq<PackageInfo>, name: Seq<char>, i: int)
    requires
        0 <= i < pkgs.len(),
        pkgs[i].name@ == name,
        forall|j: int| 0 <= j < i ==> pkgs[j].name@ != name,
    ensures
        first_package(pkgs, name) == Some(pkgs[i]@),
    decreases i,
{
    if i > 0 {
        lemma_first_package(pkgs.drop_first(), name, i - 1);
    }
}

proof fn lemma_no_package(pkgs: Seq<PackageInfo>, name: Seq<char>)
    requires
        forall|j: int| 0 <= j < pkgs.len() ==> pkgs[j].name@ != name,
    ensures
        first_package(pkgs, name) is None,
    decreases pkgs.len(),
{
    if pkgs.len() > 0 {
        lemma_no_package(pkgs.drop_first(), name);
    }
}

/// Looks a package up by name, as the validation rules do.
pub fn lookup_package(pkgs: &Vec<PackageInfo>, name: &str) -> (r: Option<usize>)
    ensures
        r matches Some(i) ==> i < pkgs@.len() && first_package(pkgs@, name@) == Some(pkgs@[i as int]@) && pkgs@[i as int].name@ == name@,
        r is None ==> first_package(pkgs@, name@) is None,
        (r is Some) == package_names(pkgs@).contains(name@),
{
    let r = find_package(pkgs, name);
    proof {
        match r {
            Some(i) => lemma_first_package(pkgs@, name@, i as int),
            None => lemma_no_package(pkgs@, name@),
        }
    }
    r
}

/// Names that are not packages of the project.
pub open spec fn missing_errors(names: Seq<Seq<char>>, pkgs: Seq<PackageInfo>) -> Seq<ValidationErrorView>
    decreases names.len(),
{
    if names.len() == 0 {
        Seq::empty()
    } else {
        missing_errors(names.drop_last(), pkgs) + if package_names(pkgs).contains(names.last()) {
            Seq::empty()
        } else {
            seq![ValidationErrorView::PackageNotFound { name: names.last(), available: package_names(pkgs) }]
        }
    }
}

/// Tags in the pre-release state that are not valid tags.
pub open spec fn invalid_tag_errors(pairs: Seq<(Seq<char>, Seq<char>)>) -> Seq<ValidationErrorView>
    decreases pairs.len(),
{
    if pairs.len() == 0 {
        Seq::empty()
    } else {
        invalid_tag_errors(pairs.drop_last()) + if valid_prerelease_tag(pairs.last().1) {
            Seq::empty()
        } else {
            seq![ValidationErrorView::InvalidPrereleaseTag { package: pairs.last().0, tag: pairs.last().1, source: pairs.last().1 }]
        }
    }
}

/// Command-line tags that differ from the tag in the pre-release state.
pub open spec fn conflict_errors(cli: Seq<(Seq<char>, PrereleaseSpec)>, state: PrereleaseState) -> Seq<ValidationErrorView>
    decreases cli.len(),
{
    if cli.len() == 0 {
        Seq::empty()
    } else {
        conflict_errors(cli.drop_last(), state) + match state.lookup(cli.last().0) {
            Some(t) => if spec_identifier(cli.last().1) != t {
                seq![ValidationErrorView::ConflictingPrereleaseTag { package: cli.last().0, cli_tag: spec_identifier(cli.last().1), toml_tag: t }]
            } else {
                Seq::empty()
            },
            None => Seq::empty(),
        }
    }
}

/// Graduation requests for packages that are in pre-release.
pub open spec fn from_prerelease_errors(names: Seq<Seq<char>>, pkgs: Seq<PackageInfo>) -> Seq<ValidationErrorView>
    decreases names.len(),
{
    if names.len() == 0 {
        Seq::empty()
    } else {
        from_prerelease_errors(names.drop_last(), pkgs) + match first_package(pkgs, names.last()) {
            Some(p) => if is_prerelease_spec(p.version) {
                seq![ValidationErrorView::CannotGraduateFromPrerelease { package: names.last(), current_version: p.version }]
            } else {
                Seq::empty()
            },
            None => Seq::empty(),
        }
    }
}

/// Graduation requests for packages already at `1.0.0` or above.
pub open spec fn stable_errors(names: Seq<Seq<char>>, pkgs: Seq<PackageInfo>) -> Seq<ValidationErrorView>
    decreases names.len(),
{
    if names.len() == 0 {
        Seq::empty()
    } else {
        stable_errors(names.drop_last(), pkgs) + match first_package(pkgs, names.last()) {
            Some(p) => if !is_zero_version_spec(p.version) && !is_prerelease_spec(p.version) {
                seq![ValidationErrorView::CannotGraduateStableVersion { package: names.last(), version: p.version }]
            } else {
                Seq::empty()
            },
            None => Seq::empty(),
        }
    }
}

fn push_error(errors: &mut Vec<ValidationError>, e: ValidationError)
    ensures
        error_views(final(errors)@) == error_views(old(errors)@).push(e@),
{
    errors.push(e);
    proof {
        assert(error_views(errors@) =~= error_views(old(errors)@).push(e@));
    }
}

fn push_missing(names: &Vec<String>, pkgs: &Vec<PackageInfo>, errors: &mut Vec<ValidationError>)
    ensures
        error_views(final(errors)@) == error_views(old(errors)@) + missing_errors(views(names@), pkgs@),
{
    let available = available_names(pkgs);
    let mut i: usize = 0;
    while i < names.len()
        invariant
            i <= names.len(),
            views(available@) == package_names(pkgs@),
            error_views(errors@) == error_views(old(errors)@) + missing_errors(views(names@).take(i as int), pkgs@),
        decreases names.len() - i,
    {
        proof {
            assert(views(names@).take(i + 1).drop_last() =~= views(names@).take(i as int));
            assert(views(names@).take(i + 1).last() == names@[i as int]@);
        }
        if find_package(pkgs, names[i].as_str()).is_none() {
            push_error(errors, ValidationError::PackageNotFound { name: names[i].clone(), available: crate::model::clone_strings(&available) });
        }
        proof {
            assert(error_views(errors@) =~= error_views(old(errors)@) + missing_errors(views(names@).take(i + 1), pkgs@));
        }
        i = i + 1;
    }
    proof {
        assert(views(names@).take(names.len() as int) =~= views(names@));
    }
}

fn available_names(pkgs: &Vec<PackageInfo>) -> (r: Vec<String>)
    ensures
        views(r@) == package_names(pkgs@),
{
    let mut r: Vec<String> = Vec::new();
    let mut i: usize = 0;
    while i < pkgs.len()
        invariant
            i <= pkgs.len(),
            views(r@) == package_names(pkgs@).take(i as int),
        decreases pkgs.len() - i,
    {
        crate::text::push_string(&mut r, pkgs[i].name.clone());
        proof {
            assert(views(r@) =~= package_names(pkgs@).take(i + 1));
        }
        i = i + 1;
    }
    proof {
        assert(package_names(pkgs@).take(pkgs.len() as int) =~= package_names(pkgs@));
    }
    r
}

fn push_invalid_tags(state: &PrereleaseState, errors: &mut Vec<ValidationError>)
    requires
        state.wf(),
    ensures
        error_views(final(errors)@) == error_views(old(errors)@) + invalid_tag_errors(state.pairs()),
{
    let entries = state.entries();
    let mut i: usize = 0;
    while i < entries.len()
        invariant
            i <= entries.len(),
            crate::release_state::pair_views(entries@) == state.pairs(),
            error_views(errors@) == error_views(old(errors)@) + invalid_tag_errors(state.pairs().take(i as int)),
        decreases entries.len() - i,
    {
        proof {
            assert(state.pairs().take(i + 1).drop_last() =~= state.pairs().take(i as int));
            assert(state.pairs().take(i + 1).last() == (entries@[i as int].0@, entries@[i as int].1@));
        }
        let e = &entries[i];
        match PrereleaseSpec::parse(e.1.as_str()) {
            Ok(_) => {},
            Err(source) => {
                push_error(errors, ValidationError::InvalidPrereleaseTag { package: e.0.clone(), tag: e.1.clone(), source });
            },
        }
        proof {
            assert(error_views(errors@) =~= error_views(old(errors)@) + invalid_tag_errors(state.pairs().take(i + 1)));
        }
        i = i + 1;
    }
    proof {
        assert(state.pairs().take(entries.len() as int) =~= state.pairs());
    }
}

fn push_conflicts(cli: &NameMap<PrereleaseSpec>, state: &PrereleaseState, errors: &mut Vec<ValidationError>)
    requires
        cli.wf(),
        state.wf(),
    ensures
        error_views(final(errors)@) == error_views(old(errors)@) + conflict_errors(cli.pairs(), *state),
{
    let entries = cli.entries();
    let mut i: usize = 0;
    while i < entries.len()
        invariant
            i <= entries.len(),
            state.wf(),
            crate::name_map::keyed_views(entries@) == cli.pairs(),
            error_views(errors@) == error_views(old(errors)@) + conflict_errors(cli.pairs().take(i as int), *state),
        decreases entries.len() - i,
    {
        proof {
            assert(cli.pairs().take(i + 1).drop_last() =~= cli.pairs().take(i as int));
            assert(cli.pairs().take(i + 1).last() == (entries@[i as int].0@, entries@[i as int].1));
        }
        let e = &entries[i];
        match state.get(e.0.as_str()) {
            Some(toml_tag) => {
                let cli_tag = e.1.to_string();
                if !crate::text::str_eq(cli_tag.as_str(), toml_tag.as_str()) {
                    push_error(errors, ValidationError::ConflictingPrereleaseTag { package: e.0.clone(), cli_tag, toml_tag });
                }
            },
            None => {},
        }
        proof {
            assert(error_views(errors@) =~= error_views(old(errors)@) + conflict_errors(cli.pairs().take(i + 1), *state));
        }
        i = i + 1;
    }
    proof {
        assert(cli.pairs().take(entries.len() as int) =~= cli.pairs());
    }
}

fn push_from_prerelease(names: &Vec<String>, pkgs: &Vec<PackageInfo>, errors: &mut Vec<ValidationError>)
    ensures
        error_views(final(errors)@) == error_views(old(errors)@) + from_prerelease_errors(views(names@), pkgs@),
{
    let mut i: usize = 0;
    while i < names.len()
        invariant
            i <= names.len(),
            error_views(errors@) == error_views(old(errors)@) + from_prerelease_errors(views(names@).take(i as int), pkgs@),
        decreases names.len() - i,
    {
        proof {
            assert(views(names@).take(i + 1).drop_last() =~= views(names@).take(i as int));
            assert(views(names@).take(i + 1).last() == names@[i as int]@);
        }
        match lookup_package(pkgs, names[i].as_str()) {
            Some(j) => {
                if is_prerelease(&pkgs[j].version) {
                    push_error(errors, ValidationError::CannotGraduateFromPrerelease { package: names[i].clone(), current_version: pkgs[j].version.clone() });
                }
            },
            None => {},
        }
        proof {
            assert(error_views(errors@) =~= error_views(old(errors)@) + from_prerelease_errors(views(names@).take(i + 1), pkgs@));
        }
        i = i + 1;
    }
    proof {
        assert(views(names@).take(names.len() as int) =~= views(names@));
    }
}

fn push_stable(names: &Vec<String>, pkgs: &Vec<PackageInfo>, errors: &mut Vec<ValidationError>)
    ensures
        error_views(final(errors)@) == error_views(old(errors)@) + stable_errors(views(names@), pkgs@),
{
    let mut i: usize = 0;
    while i < names.len()
        invariant
            i <= names.len(),
            error_views(errors@) == error_views(old(errors)@) + stable_errors(views(names@).take(i as int), pkgs@),
        decreases names.len() - i,
    {
        proof {
            assert(views(names@).take(i + 1).drop_last() =~= views(names@).take(i as int));
            assert(views(names@).take(i + 1).last() == names@[i as int]@);
        }
        match lookup_package(pkgs, names[i].as_str()) {
            Some(j) => {
                if !is_zero_version(&pkgs[j].version) && !is_prerelease(&pkgs[j].version) {
                    push_error(errors, ValidationError::CannotGraduateStableVersion { package: names[i].clone(), version: pkgs[j].version.clone() });
                }
            },
            None => {},
        }
        proof {
            assert(error_views(errors@) =~= error_views(old(errors)@) + stable_errors(views(names@).take(i + 1), pkgs@));
        }
        i = i + 1;
    }
    proof {
        assert(views(names@).take(names.len() as int) =~= views(names@));
    }
}

/// The names of a map, as strings.
fn map_names<V: ExactClone>(m: &NameMap<V>) -> (r: Vec<String>)
    requires
        m.wf(),
    ensures
        views(r@) == m.names(),
{
    let entries = m.entries();
    let mut r: Vec<String> = Vec::new();
    let mut i: usize = 0;
    proof {
        m.lemma_wf_facts();
    }
    while i < entries.len()
        invariant
            i <= entries.len(),
            crate::name_map::keyed_views(entries@) == m.pairs(),
            m.names().len() == m.pairs().len(),
            forall|j: int| 0 <= j < m.pairs().len() ==> #[trigger] m.pairs()[j].0 == m.names()[j],
            views(r@) == m.names().take(i as int),
        decreases entries.len() - i,
    {
        proof {
            assert(crate::name_map::keyed_views(entries@)[i as int] == m.pairs()[i as int]);
            assert(m.pairs()[i as int].0 == m.names()[i as int]);
        }
        crate::text::push_string(&mut r, entries[i].0.clone());
        proof {
            assert(views(r@) =~= m.names().take(i + 1));
        }
        i = i + 1;
    }
    proof {
        assert(m.names().take(entries.len() as int) =~= m.names());
    }
    r
}

/// The errors a release input has against the project and the release state, in the order the rules are checked.
pub open spec fn expected_errors(
    cli: ReleaseCliInput,
    prerelease_state: Option<&PrereleaseState>,
    graduation_state: Option<&GraduationState>,
    pkgs: Seq<PackageInfo>,
    kind: ProjectKind,
) -> Seq<ValidationErrorView> {
    missing_errors(cli.spec_cli_prerelease().names(), pkgs)
    + missing_errors(cli.spec_cli_graduate(), pkgs)
    + match prerelease_state { Some(s) => invalid_tag_errors(s.pairs()), None => Seq::empty() }
    + match prerelease_state { Some(s) => conflict_errors(cli.spec_cli_prerelease().pairs(), *s), None => Seq::empty() }
    + from_prerelease_errors(cli.spec_cli_graduate(), pkgs)
    + match graduation_state { Some(g) => from_prerelease_errors(g.members(), pkgs), None => Seq::empty() }
    + stable_errors(cli.spec_cli_graduate(), pkgs)
    + match graduation_state { Some(g) => stable_errors(g.members(), pkgs), None => Seq::empty() }
    + if kind != ProjectKind::SinglePackage && cli.spec_graduate_all() && cli.spec_cli_graduate().len() == 0 {
        seq![ValidationErrorView::GraduateRequiresCratesInWorkspace]
    } else {
        Seq::empty()
    }
}

/// Whether a package's graduation is asked for.
pub open spec fn expected_graduate(
    cli: ReleaseCliInput,
    graduation_state: Option<&GraduationState>,
    pkgs: Seq<PackageInfo>,
    k: Seq<char>,
) -> bool {
    (graduation_state matches Some(g) && g.members().contains(k))
    || cli.spec_cli_graduate().contains(k)
    || (cli.spec_graduate_all() && exists|i: int| 0 <= i < pkgs.len() && pkgs[i].name@ == k && is_zero_version_spec(pkgs[i].version@))
}

/// Whether a package has a valid tag in the pre-release state.
pub open spec fn has_valid_state_tag(prerelease_state: Option<&PrereleaseState>, k: Seq<char>) -> bool {
    prerelease_state matches Some(s) && s.lookup(k) matches Some(t) && valid_prerelease_tag(t)
}

/// The pre-release a package gets: the global tag for every package,
/// else its command-line tag, else the tag in the pre-release state.
pub open spec fn prerelease_fits(
    p: Option<PrereleaseSpec>,
    cli: ReleaseCliInput,
    prerelease_state: Option<&PrereleaseState>,
    pkgs: Seq<PackageInfo>,
    k: Seq<char>,
) -> bool {
    if cli.spec_global_prerelease() is Some && package_names(pkgs).contains(k) {
        p == cli.spec_global_prerelease()
    } else if cli.spec_cli_prerelease().lookup(k) is Some {
        p == cli.spec_cli_prerelease().lookup(k)
    } else if has_valid_state_tag(prerelease_state, k) {
        p matches Some(q) && spec_identifier(q) == prerelease_state->0.lookup(k)->0
    } else {
        p is None
    }
}

/// Whether any source configures a package.
pub open spec fn configured(
    cli: ReleaseCliInput,
    prerelease_state: Option<&PrereleaseState>,
    graduation_state: Option<&GraduationState>,
    pkgs: Seq<PackageInfo>,
    k: Seq<char>,
) -> bool {
    has_valid_state_tag(prerelease_state, k)
    || cli.spec_cli_prerelease().lookup(k) is Some
    || (cli.spec_global_prerelease() is Some && package_names(pkgs).contains(k))
    || expected_graduate(cli, graduation_state, pkgs, k)
}

/// The configuration recorded for a package is the one its sources ask for.
pub open spec fn config_fits(
    c: PackageReleaseConfig,
    cli: ReleaseCliInput,
    prerelease_state: Option<&PrereleaseState>,
    graduation_state: Option<&GraduationState>,
    pkgs: Seq<PackageInfo>,
    k: Seq<char>,
) -> bool {
    c.graduate_zero == expected_graduate(cli, graduation_state, pkgs, k)
    && prerelease_fits(c.prerelease, cli, prerelease_state, pkgs, k)
}

fn zero_package_named(pkgs: &Vec<PackageInfo>, name: &str) -> (r: bool)
    ensures
        r == exists|i: int| 0 <= i < pkgs@.len() && pkgs@[i].name@ == name@ && is_zero_version_spec(pkgs@[i].version@),
{
    let mut i: usize = 0;
    while i < pkgs.len()
        invariant
            i <= pkgs.len(),
            forall|j: int| 0 <= j < i ==> !(pkgs@[j].name@ == name@ && is_zero_version_spec(pkgs@[j].version@)),
        decreases pkgs.len() - i,
    {
        if crate::text::str_eq(pkgs[i].name.as_str(), name) && is_zero_version(&pkgs[i].version) {
            return true;
        }
        i = i + 1;
    }
    false
}

/// The configuration of one configured package.
fn config_for(
    cli: &ReleaseCliInput,
    prerelease_state: Option<&PrereleaseState>,
    graduation_state: Option<&GraduationState>,
    pkgs: &Vec<PackageInfo>,
    name: &str,
) -> (c: PackageReleaseConfig)
    requires
        cli.wf(),
        prerelease_state matches Some(s) ==> s.wf(),
    ensures
        config_fits(c, *cli, prerelease_state, graduation_state, pkgs@, name@),
{
    let in_state = match graduation_state {
        Some(g) => g.contains(name),
        None => false,
    };
    let graduate_zero = in_state || contains_str(&cli.cli_graduate, name) || (cli.graduate_all && zero_package_named(pkgs, name));
    let prerelease = if cli.global_prerelease.is_some() && find_package(pkgs, name).is_some() {
        match &cli.global_prerelease {
            Some(p) => Some(p.clone()),
            None => None,
        }
    } else {
        match cli.cli_prerelease.get(name) {
            Some(p) => Some(p.clone()),
            None => match prerelease_state {
                Some(s) => match s.get(name) {
                    Some(t) => match PrereleaseSpec::parse(t.as_str()) {
                        Ok(p) => Some(p),
                        Err(_) => None,
                    },
                    None => None,
                },
                None => None,
            },
        }
    };
    PackageReleaseConfig { prerelease, graduate_zero }
}

fn add_configs(
    map: &mut NameMap<PackageReleaseConfig>,
    names: &Vec<String>,
    cli: &ReleaseCliInput,
    prerelease_state: Option<&PrereleaseState>,
    graduation_state: Option<&GraduationState>,
    pkgs: &Vec<PackageInfo>,
)
    requires
        old(map).wf(),
        cli.wf(),
        prerelease_state matches Some(s) ==> s.wf(),
        forall|k: Seq<char>| #[trigger] old(map).lookup(k) matches Some(c) ==> config_fits(c, *cli, prerelease_state, graduation_state, pkgs@, k),
    ensures
        final(map).wf(),
        forall|k: Seq<char>| #[trigger] final(map).lookup(k) is Some <==> (old(map).lookup(k) is Some || views(names@).contains(k)),
        forall|k: Seq<char>| #[trigger] final(map).lookup(k) matches Some(c) ==> config_fits(c, *cli, prerelease_state, graduation_state, pkgs@, k),
{
    let mut i: usize = 0;
    while i < names.len()
        invariant
            i <= names.len(),
            map.wf(),
            cli.wf(),
            prerelease_state matches Some(s) ==> s.wf(),
            forall|k: Seq<char>| #[trigger] map.lookup(k) is Some <==> (old(map).lookup(k) is Some || views(names@).take(i as int).contains(k)),
            forall|k: Seq<char>| #[trigger] map.lookup(k) matches Some(c) ==> config_fits(c, *cli, prerelease_state, graduation_state, pkgs@, k),
        decreases names.len() - i,
    {
        let c = config_for(cli, prerelease_state, graduation_state, pkgs, names[i].as_str());
        map.insert(names[i].clone(), c);
        proof {
            assert(views(names@).take(i + 1) =~= views(names@).take(i as int).push(names@[i as int]@));
            crate::text::lemma_contains_push(views(names@).take(i as int), names@[i as int]@);
        }
        i = i + 1;
    }
    proof {
        assert(views(names@).take(names.len() as int) =~= views(names@));
    }
}

/// Names with a valid tag in the pre-release state.
fn valid_state_names(state: &PrereleaseState) -> (r: Vec<String>)
    requires
        state.wf(),
    ensures
        forall|k: Seq<char>| views(r@).contains(k) <==> (state.lookup(k) matches Some(t) && valid_prerelease_tag(t)),
{
    let entries = state.entries();
    let mut r: Vec<String> = Vec::new();
    let mut i: usize = 0;
    proof {
        state.lemma_wf_facts();
    }
    while i < entries.len()
        invariant
            i <= entries.len(),
            state.wf(),
            crate::release_state::pair_views(entries@) == state.pairs(),
            state.names().len() == state.pairs().len(),
            forall|j: int| 0 <= j < state.pairs().len() ==> #[trigger] state.pairs()[j].0 == state.names()[j],
            forall|j: int| 0 <= j < state.pairs().len() ==> state.lookup(#[trigger] state.pairs()[j].0) == Some(state.pairs()[j].1),
            forall|k: Seq<char>| (#[trigger] state.lookup(k) is Some) <==> state.names().contains(k),
            forall|k: Seq<char>| views(r@).contains(k) <==> (state.names().take(i as int).contains(k) && (state.lookup(k) matches Some(t) && valid_prerelease_tag(t))),
        decreases entries.len() - i,
    {
        let e = &entries[i];
        proof {
            assert(crate::release_state::pair_views(entries@)[i as int] == state.pairs()[i as int]);
            assert(state.pairs()[i as int].0 == state.names()[i as int]);
            assert(state.lookup(state.pairs()[i as int].0) == Some(state.pairs()[i as int].1));
            assert(state.names().take(i + 1) =~= state.names().take(i as int).push(e.0@));
            crate::text::lemma_contains_push(state.names().take(i as int), e.0@);
            crate::text::lemma_contains_push(views(r@), e.0@);
        }
        if crate::release_state::is_valid_prerelease_tag(e.1.as_str()) {
            crate::text::push_string(&mut r, e.0.clone());
        }
        i = i + 1;
    }
    proof {
        assert(state.names().take(entries.len() as int) =~= state.names());
        assert forall|k: Seq<char>| (state.lookup(k) matches Some(t) && valid_prerelease_tag(t)) implies state.names().contains(k) by {}
    }
    r
}

/// Names of the packages at a `0.x` version.
fn zero_package_names(pkgs: &Vec<PackageInfo>) -> (r: Vec<String>)
    ensures
        forall|k: Seq<char>| views(r@).contains(k) <==> exists|i: int| 0 <= i < pkgs@.len() && pkgs@[i].name@ == k && is_zero_version_spec(pkgs@[i].version@),
{
    let mut r: Vec<String> = Vec::new();
    let mut i: usize = 0;
    while i < pkgs.len()
        invariant
            i <= pkgs.len(),
            forall|k: Seq<char>| views(r@).contains(k) <==> exists|j: int| 0 <= j < i && pkgs@[j].name@ == k && is_zero_version_spec(pkgs@[j].version@),
        decreases pkgs.len() - i,
    {
        proof {
            crate::text::lemma_contains_push(views(r@), pkgs@[i as int].name@);
        }
        if is_zero_version(&pkgs[i].version) {
            crate::text::push_string(&mut r, pkgs[i].name.clone());
            proof {
                assert(views(r@) =~= views(r@.drop_last()).push(pkgs@[i as int].name@));
            }
        }
        proof {
            assert forall|k: Seq<char>| views(r@).contains(k) <==> exists|j: int| 0 <= j < i + 1 && pkgs@[j].name@ == k && is_zero_version_spec(pkgs@[j].version@) by {
                if exists|j: int| 0 <= j < i + 1 && pkgs@[j].name@ == k && is_zero_version_spec(pkgs@[j].version@) {
                    let j = choose|j: int| 0 <= j < i + 1 && pkgs@[j].name@ == k && is_zero_version_spec(pkgs@[j].version@);
                    if j < i {
                        assert(exists|j2: int| 0 <= j2 < i && pkgs@[j2].name@ == k && is_zero_version_spec(pkgs@[j2].version@));
                    }
                }
            }
        }
        i = i + 1;
    }
    r
}

/// A release configuration whose input passed validation.
#[derive(Debug)]
pub struct ValidatedReleaseConfig {
    per_package: NameMap<PackageReleaseConfig>,
}

impl Clone for ValidatedReleaseConfig {
    fn clone(&self) -> (r: Self)
        ensures
            r.spec_per_package().pairs() == self.spec_per_package().pairs(),
            r.spec_per_package().names() == self.spec_per_package().names(),
            r.spec_per_package().wf() == self.spec_per_package().wf(),
            forall|k: Seq<char>| #[trigger] r.spec_per_package().lookup(k) == self.spec_per_package().lookup(k),
    {
        ValidatedReleaseConfig { per_package: self.per_package.duplicate() }
    }
}

impl ValidatedReleaseConfig {
    pub closed spec fn spec_per_package(&self) -> NameMap<PackageReleaseConfig> {
        self.per_package
    }

    /// The configuration of each configured package.
    pub fn per_package(&self) -> (r: &NameMap<PackageReleaseConfig>)
        ensures
            *r == self.spec_per_package(),
    {
        &self.per_package
    }

    /// The configuration of each configured package.
    pub fn into_per_package(self) -> (r: NameMap<PackageReleaseConfig>)
        ensures
            r == self.spec_per_package(),
    {
        self.per_package
    }
}

/// Collects the per-package configuration from every source: the valid
/// tags of the pre-release state, the command-line tags, the global tag,
/// the graduation queue, the command-line graduations and `graduate_all`.
pub fn build_release_config(
    cli: &ReleaseCliInput,
    prerelease_state: Option<&PrereleaseState>,
    graduation_state: Option<&GraduationState>,
    pkgs: &Vec<PackageInfo>,
) -> (r: ValidatedReleaseConfig)
    requires
        cli.wf(),
        prerelease_state matches Some(s) ==> s.wf(),
        graduation_state matches Some(g) ==> g.wf(),
    ensures
        r.spec_per_package().wf(),
        forall|k: Seq<char>| #[trigger] r.spec_per_package().lookup(k) is Some <==> configured(*cli, prerelease_state, graduation_state, pkgs@, k),
        forall|k: Seq<char>| #[trigger] r.spec_per_package().lookup(k) matches Some(c) ==> config_fits(c, *cli, prerelease_state, graduation_state, pkgs@, k),
{
    let mut map: NameMap<PackageReleaseConfig> = NameMap::new();
    let state_names = match prerelease_state {
        Some(s) => valid_state_names(s),
        None => Vec::new(),
    };
    add_configs(&mut map, &state_names, cli, prerelease_state, graduation_state, pkgs);
    let cli_names = map_names(&cli.cli_prerelease);
    proof {
        cli.cli_prerelease.lemma_wf_facts();
    }
    add_configs(&mut map, &cli_names, cli, prerelease_state, graduation_state, pkgs);
    let global_names = if cli.global_prerelease.is_some() {
        available_names(pkgs)
    } else {
        Vec::new()
    };
    add_configs(&mut map, &global_names, cli, prerelease_state, graduation_state, pkgs);
    let queued = match graduation_state {
        Some(g) => g.names(),
        None => Vec::new(),
    };
    add_configs(&mut map, &queued, cli, prerelease_state, graduation_state, pkgs);
    add_configs(&mut map, &cli.cli_graduate, cli, prerelease_state, graduation_state, pkgs);
    let zero_names = if cli.graduate_all {
        zero_package_names(pkgs)
    } else {
        Vec::new()
    };
    add_configs(&mut map, &zero_names, cli, prerelease_state, graduation_state, pkgs);
    proof {
        assert forall|k: Seq<char>| #[trigger] map.lookup(k) is Some <==> configured(*cli, prerelease_state, graduation_state, pkgs@, k) by {
            if expected_graduate(*cli, graduation_state, pkgs@, k) && cli.spec_graduate_all() && exists|i: int| 0 <= i < pkgs@.len() && pkgs@[i].name@ == k && is_zero_version_spec(pkgs@[i].version@) {
                assert(views(zero_names@).contains(k));
            }
        }
    }
    ValidatedReleaseConfig { per_package: map }
}

/// Checks a release input against the project and the release state.
pub struct ReleaseValidator;

impl ReleaseValidator {
    /// Applies every rule and reports all violations at once; a valid input
    /// yields the per-package configuration.
    pub fn validate(
        cli_input: &ReleaseCliInput,
        prerelease_state: Option<&PrereleaseState>,
        graduation_state: Option<&GraduationState>,
        packages: &Vec<PackageInfo>,
        project_kind: &ProjectKind,
    ) -> (r: core::result::Result<ValidatedReleaseConfig, ValidationErrors>)
        requires
            cli_input.wf(),
            prerelease_state matches Some(s) ==> s.wf(),
            graduation_state matches Some(g) ==> g.wf(),
        ensures
            r is Ok <==> expected_errors(*cli_input, prerelease_state, graduation_state, packages@, *project_kind).len() == 0,
            r matches Err(e) ==> e@ == expected_errors(*cli_input, prerelease_state, graduation_state, packages@, *project_kind),
            r matches Ok(c) ==> c.spec_per_package().wf()
                && (forall|k: Seq<char>| #[trigger] c.spec_per_package().lookup(k) is Some <==> configured(*cli_input, prerelease_state, graduation_state, packages@, k))
                && (forall|k: Seq<char>| #[trigger] c.spec_per_package().lookup(k) matches Some(cfg) ==> config_fits(cfg, *cli_input, prerelease_state, graduation_state, packages@, k)),
    {
        let mut errors: Vec<ValidationError> = Vec::new();
        let cli_names = map_names(&cli_input.cli_prerelease);
        push_missing(&cli_names, packages, &mut errors);
        push_missing(&cli_input.cli_graduate, packages, &mut errors);
        match prerelease_state {
            Some(s) => push_invalid_tags(s, &mut errors),
            None => {},
        }
        match prerelease_state {
            Some(s) => push_conflicts(&cli_input.cli_prerelease, s, &mut errors),
            None => {},
        }
        push_from_prerelease(&cli_input.cli_graduate, packages, &mut errors);
        match graduation_state {
            Some(g) => {
                let queued = g.names();
                push_from_prerelease(&queued, packages, &mut errors);
            },
            None => {},
        }
        push_stable(&cli_input.cli_graduate, packages, &mut errors);
        match graduation_state {
            Some(g) => {
                let queued = g.names();
                push_stable(&queued, packages, &mut errors);
            },
            None => {},
        }
        let workspace = match project_kind {
            ProjectKind::SinglePackage => false,
            _ => true,
        };
        if workspace && cli_input.graduate_all && cli_input.cli_graduate.len() == 0 {
            push_error(&mut errors, ValidationError::GraduateRequiresCratesInWorkspace);
        }
        proof {
            assert(error_views(errors@) =~= expected_errors(*cli_input, prerelease_state, graduation_state, packages@, *project_kind));
        }
        match ValidationErrors::try_from_vec(errors) {
            Some(e) => Err(e),
            None => Ok(build_release_config(cli_input, prerelease_state, graduation_state, packages)),
        }
    }
}

} // verus!

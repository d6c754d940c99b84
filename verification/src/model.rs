//! The project model the operations work on: packages, changesets and the
//! settings that steer a release.
use vstd::prelude::*;

use crate::text::views;
use crate::version::{BumpType, Version, VersionView};

verus! {

/// The changelog section a change belongs to.
#[derive(Debug, PartialEq, Eq, Structural, Clone, Copy, Hash)]
pub enum ChangeCategory {
    Added,
    Changed,
    Deprecated,
    Removed,
    Fixed,
    Security,
}

impl ChangeCategory {
    /// The category a changeset gets when none is chosen.
    pub fn default_category() -> (c: ChangeCategory)
        ensures
            c == ChangeCategory::Changed,
    {
        ChangeCategory::Changed
    }
}

/// One package named by a changeset, with the bump it asks for.
#[derive(Debug, PartialEq, Eq)]
pub struct PackageRelease {
    pub name: String,
    pub bump_type: BumpType,
}

impl View for PackageRelease {
    type V = (Seq<char>, BumpType);

    open spec fn view(&self) -> (Seq<char>, BumpType) {
        (self.name@, self.bump_type)
    }
}

impl PackageRelease {
    pub fn new(name: String, bump_type: BumpType) -> (r: PackageRelease)
        ensures
            r.name == name,
            r.bump_type == bump_type,
    {
        PackageRelease { name, bump_type }
    }
}

impl Clone for PackageRelease {
    fn clone(&self) -> (r: Self)
        ensures
            r == *self,
    {
        PackageRelease { name: self.name.clone(), bump_type: self.bump_type }
    }
}

pub open spec fn release_views(s: Seq<PackageRelease>) -> Seq<(Seq<char>, BumpType)> {
    s.map_values(|r: PackageRelease| r@)
}

/// The abstract value of a changeset.
pub struct ChangesetView {
    pub summary: Seq<char>,
    pub category: ChangeCategory,
    pub releases: Seq<(Seq<char>, BumpType)>,
    pub consumed_for_prerelease: Option<Seq<char>>,
    pub graduate: bool,
}

/// A recorded change: what changed, in which category, and which packages
/// it bumps by how much.
#[derive(Debug, PartialEq, Eq)]
pub struct Changeset {
    pub summary: String,
    pub category: ChangeCategory,
    pub releases: Vec<PackageRelease>,
    /// The pre-release version this changeset was already released in, if any.
    pub consumed_for_prerelease: Option<String>,
    pub graduate: bool,
}

pub open spec fn opt_view(o: Option<String>) -> Option<Seq<char>> {
    match o {
        Some(s) => Some(s@),
        None => None,
    }
}

impl View for Changeset {
    type V = ChangesetView;

    open spec fn view(&self) -> ChangesetView {
        ChangesetView {
            summary: self.summary@,
            category: self.category,
            releases: release_views(self.releases@),
            consumed_for_prerelease: opt_view(self.consumed_for_prerelease),
            graduate: self.graduate,
        }
    }
}

pub fn clone_releases(v: &Vec<PackageRelease>) -> (r: Vec<PackageRelease>)
    ensures
        r@ == v@,
{
    let mut r: Vec<PackageRelease> = Vec::new();
    let mut i: usize = 0;
    while i < v.len()
        invariant
            i <= v.len(),
            r@ == v@.take(i as int),
        decreases v.len() - i,
    {
        r.push(v[i].clone());
        proof {
            assert(v@.take(i + 1) =~= v@.take(i as int).push(v@[i as int]));
        }
        i = i + 1;
    }
    proof {
        assert(v@.take(v.len() as int) =~= v@);
    }
    r
}

pub fn clone_opt_string(o: &Option<String>) -> (r: Option<String>)
    ensures
        r == *o,
{
    match o {
        Some(s) => Some(s.clone()),
        None => None,
    }
}

impl Changeset {
    /// A pending changeset, not yet consumed by a pre-release and not a
    /// graduation.
    pub fn new(summary: String, releases: Vec<PackageRelease>, category: ChangeCategory) -> (r: Changeset)
        ensures
            r.summary == summary,
            r.releases == releases,
            r.category == category,
            r.consumed_for_prerelease is None,
            !r.graduate,
    {
        Changeset { summary, category, releases, consumed_for_prerelease: None, graduate: false }
    }
}

impl Clone for Changeset {
    fn clone(&self) -> (r: Self)
        ensures
            r@ == self@,
    {
        Changeset {
            summary: self.summary.clone(),
            category: self.category,
            releases: clone_releases(&self.releases),
            consumed_for_prerelease: clone_opt_string(&self.consumed_for_prerelease),
            graduate: self.graduate,
        }
    }
}

pub open spec fn changeset_views(s: Seq<Changeset>) -> Seq<ChangesetView> {
    s.map_values(|c: Changeset| c@)
}

/// The abstract value of a package.
pub struct PackageInfoView {
    pub name: Seq<char>,
    pub version: VersionView,
    pub path: Seq<char>,
}

/// A package of the project: its name, current version and directory.
#[derive(Debug, PartialEq, Eq)]
pub struct PackageInfo {
    pub name: String,
    pub version: Version,
    pub path: String,
}

impl View for PackageInfo {
    type V = PackageInfoView;

    open spec fn view(&self) -> PackageInfoView {
        PackageInfoView { name: self.name@, version: self.version@, path: self.path@ }
    }
}

impl Clone for PackageInfo {
    fn clone(&self) -> (r: Self)
        ensures
            r == *self,
    {
        PackageInfo { name: self.name.clone(), version: self.version.clone(), path: self.path.clone() }
    }
}

impl PackageInfo {
    pub fn name(&self) -> (r: &String)
        ensures
            r == &self.name,
    {
        &self.name
    }

    pub fn version(&self) -> (r: &Version)
        ensures
            r == &self.version,
    {
        &self.version
    }

    pub fn path(&self) -> (r: &String)
        ensures
            r == &self.path,
    {
        &self.path
    }
}

pub open spec fn package_names(s: Seq<PackageInfo>) -> Seq<Seq<char>> {
    s.map_values(|p: PackageInfo| p.name@)
}

pub fn clone_packages(v: &Vec<PackageInfo>) -> (r: Vec<PackageInfo>)
    ensures
        r@ == v@,
{
    let mut r: Vec<PackageInfo> = Vec::new();
    let mut i: usize = 0;
    while i < v.len()
        invariant
            i <= v.len(),
            r@ == v@.take(i as int),
        decreases v.len() - i,
    {
        r.push(v[i].clone());
        proof {
            assert(v@.take(i + 1) =~= v@.take(i as int).push(v@[i as int]));
        }
        i = i + 1;
    }
    proof {
        assert(v@.take(v.len() as int) =~= v@);
    }
    r
}

pub fn clone_strings(v: &Vec<String>) -> (r: Vec<String>)
    ensures
        r@ == v@,
{
    let mut r: Vec<String> = Vec::new();
    let mut i: usize = 0;
    while i < v.len()
        invariant
            i <= v.len(),
            r@ == v@.take(i as int),
        decreases v.len() - i,
    {
        r.push(v[i].clone());
        proof {
            assert(v@.take(i + 1) =~= v@.take(i as int).push(v@[i as int]));
        }
        i = i + 1;
    }
    proof {
        assert(v@.take(v.len() as int) =~= v@);
    }
    r
}

/// The position of the first package with the given name, if any.
pub open spec fn package_index_spec(pkgs: Seq<PackageInfo>, name: Seq<char>) -> Option<int> {
    if exists|i: int| 0 <= i < pkgs.len() && pkgs[i].name@ == name {
        Some(choose|i: int| 0 <= i < pkgs.len() && pkgs[i].name@ == name && forall|j: int| 0 <= j < i ==> pkgs[j].name@ != name)
    } else {
        None
    }
}

/// Finds the first package called `name`.
pub fn find_package(pkgs: &Vec<PackageInfo>, name: &str) -> (r: Option<usize>)
    ensures
        match r {
            Some(i) => i < pkgs.len() && pkgs@[i as int].name@ == name@ && forall|j: int| 0 <= j < i ==> pkgs@[j].name@ != name@,
            None => forall|j: int| 0 <= j < pkgs.len() ==> pkgs@[j].name@ != name@,
        },
        package_names(pkgs@).contains(name@) == (r is Some),
{
    let mut i: usize = 0;
    while i < pkgs.len()
        invariant
            i <= pkgs.len(),
            forall|j: int| 0 <= j < i ==> pkgs@[j].name@ != name@,
        decreases pkgs.len() - i,
    {
        if crate::text::str_eq(pkgs[i].name.as_str(), name) {
            proof {
                assert(package_names(pkgs@)[i as int] == name@);
            }
            return Some(i);
        }
        i = i + 1;
    }
    proof {
        if package_names(pkgs@).contains(name@) {
            let k = choose|k: int| 0 <= k < package_names(pkgs@).len() && package_names(pkgs@)[k] == name@;
            assert(pkgs@[k].name@ == name@);
        }
    }
    None
}

/// How a project is laid out.
#[derive(Debug, PartialEq, Eq, Structural, Clone, Copy, Hash)]
pub enum ProjectKind {
    SinglePackage,
    VirtualWorkspace,
    WorkspaceWithRoot,
}

/// A discovered Cargo project.
#[derive(Debug)]
pub struct CargoProject {
    pub root: String,
    pub kind: ProjectKind,
    pub packages: Vec<PackageInfo>,
}

impl Clone for CargoProject {
    fn clone(&self) -> (r: Self)
        ensures
            r.root == self.root,
            r.kind == self.kind,
            r.packages@ == self.packages@,
    {
        CargoProject { root: self.root.clone(), kind: self.kind, packages: clone_packages(&self.packages) }
    }
}

impl CargoProject {
    pub fn new(root: String, kind: ProjectKind, packages: Vec<PackageInfo>) -> (r: CargoProject)
        ensures
            r.root == root,
            r.kind == kind,
            r.packages == packages,
    {
        CargoProject { root, kind, packages }
    }

    pub fn root(&self) -> (r: &String)
        ensures
            r == &self.root,
    {
        &self.root
    }

    pub fn kind(&self) -> (r: &ProjectKind)
        ensures
            r == &self.kind,
    {
        &self.kind
    }

    pub fn packages(&self) -> (r: &Vec<PackageInfo>)
        ensures
            r == &self.packages,
    {
        &self.packages
    }
}

/// What a release does with changesets whose bump type is `none`.
#[derive(Debug, PartialEq, Eq, Structural, Clone, Copy, Hash)]
pub enum NoneBumpBehavior {
    Allow,
    Disallow,
    PromoteToPatch,
}

/// How release tags are named.
#[derive(Debug, PartialEq, Eq, Structural, Clone, Copy, Hash)]
pub enum TagFormat {
    /// `v1.2.3`
    VersionOnly,
    /// `crate-name@v1.2.3`
    CratePrefixed,
}

/// A version planned for one package.
#[derive(Debug, PartialEq, Eq)]
pub struct PackageVersion {
    pub name: String,
    pub current_version: Version,
    pub new_version: Version,
    pub bump_type: BumpType,
    /// Bumped only because a dependency of it is released.
    pub auto_bumped: bool,
}

/// The abstract value of a planned package version.
pub struct PackageVersionView {
    pub name: Seq<char>,
    pub current_version: VersionView,
    pub new_version: VersionView,
    pub bump_type: BumpType,
    pub auto_bumped: bool,
}

impl View for PackageVersion {
    type V = PackageVersionView;

    open spec fn view(&self) -> PackageVersionView {
        PackageVersionView {
            name: self.name@,
            current_version: self.current_version@,
            new_version: self.new_version@,
            bump_type: self.bump_type,
            auto_bumped: self.auto_bumped,
        }
    }
}

impl Clone for PackageVersion {
    fn clone(&self) -> (r: Self)
        ensures
            r == *self,
    {
        PackageVersion {
            name: self.name.clone(),
            current_version: self.current_version.clone(),
            new_version: self.new_version.clone(),
            bump_type: self.bump_type,
            auto_bumped: self.auto_bumped,
        }
    }
}

impl PackageVersion {
        pub fn new(name: String, current_version: Version, new_version: Version, bump_type: BumpType, auto_bumped: bool) -> (r: Self)
        ensures
            r == (PackageVersion { name, current_version, new_version, bump_type, auto_bumped }),
    {
        PackageVersion { name, current_version, new_version, bump_type, auto_bumped }
    }

    pub fn name(&self) -> (r: &String)
        ensures
            r == &self.name,
    {
        &self.name
    }

    pub fn current_version(&self) -> (r: &Version)
        ensures
            r == &self.current_version,
    {
        &self.current_version
    }

    pub fn new_version(&self) -> (r: &Version)
        ensures
            r == &self.new_version,
    {
        &self.new_version
    }

    pub fn bump_type(&self) -> (r: BumpType)
        ensures
            r == self.bump_type,
    {
        self.bump_type
    }

    pub fn auto_bumped(&self) -> (r: bool)
        ensures
            r == self.auto_bumped,
    {
        self.auto_bumped
    }
}

pub open spec fn package_version_views(s: Seq<PackageVersion>) -> Seq<PackageVersionView> {
    s.map_values(|p: PackageVersion| p@)
}

pub open spec fn planned_names(s: Seq<PackageVersion>) -> Seq<Seq<char>> {
    s.map_values(|p: PackageVersion| p.name@)
}

pub fn clone_package_versions(v: &Vec<PackageVersion>) -> (r: Vec<PackageVersion>)
    ensures
        r@ == v@,
{
    let mut r: Vec<PackageVersion> = Vec::new();
    let mut i: usize = 0;
    while i < v.len()
        invariant
            i <= v.len(),
            r@ == v@.take(i as int),
        decreases v.len() - i,
    {
        r.push(v[i].clone());
        proof {
            assert(v@.take(i + 1) =~= v@.take(i as int).push(v@[i as int]));
        }
        i = i + 1;
    }
    proof {
        assert(v@.take(v.len() as int) =~= v@);
    }
    r
}

} // verus!

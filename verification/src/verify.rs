//! Verifying that the changes of a branch, or of the working tree, come
//! with changesets for every package they affect.
use vstd::prelude::*;

use crate::config::{PackageChangesetConfig, RootChangesetConfig};
use crate::error::{OperationError, Result};
use crate::git::{FileChange, FileStatus};
use crate::graph::WorkspaceDependencyGraph;
use crate::model::{package_names, CargoProject, Changeset, NoneBumpBehavior, PackageInfo};
use crate::paths::{is_markdown_file, is_markdown_spec, path_starts_with, path_starts_with_spec};
use crate::text::{contains_str, insert_sorted, owned, push_string, strictly_sorted, views};
use crate::traits::{
    ChangesetReader, DependencyGraphProvider, GitDiffProvider, GitStatusProvider, GitWorkdirDiffProvider,
    ProjectProvider,
};
use crate::validator::BuilderError;
use crate::verification::{map_files_to_packages, FileMapping};
use crate::version::BumpType;

verus! {

/// What to verify against: the base revision, an optional head revision
/// (`HEAD` when absent), and which checks to relax.
#[derive(Debug)]
pub struct VerifyInput {
    pub base: String,
    pub head: Option<String>,
    pub allow_deleted_changesets: bool,
    pub exclude_dependents: bool,
    pub ignore_dirty: bool,
}

impl VerifyInput {
    pub fn base(&self) -> (r: &String)
        ensures
            r == &self.base,
    {
        &self.base
    }

    pub fn head(&self) -> (r: Option<&String>)
        ensures
            r == match &self.head {
                Some(h) => Some(h),
                None => None::<&String>,
            },
    {
        match &self.head {
            Some(h) => Some(h),
            None => None,
        }
    }

    pub fn allow_deleted_changesets(&self) -> (r: bool)
        ensures
            r == self.allow_deleted_changesets,
    {
        self.allow_deleted_changesets
    }

    pub fn exclude_dependents(&self) -> (r: bool)
        ensures
            r == self.exclude_dependents,
    {
        self.exclude_dependents
    }

    pub fn ignore_dirty(&self) -> (r: bool)
        ensures
            r == self.ignore_dirty,
    {
        self.ignore_dirty
    }
}

/// Builds a [`VerifyInput`]; unset fields are empty or `false`.
pub struct VerifyInputBuilder {
    input: VerifyInput,
}

impl VerifyInputBuilder {
    pub closed spec fn spec_input(&self) -> VerifyInput {
        self.input
    }

    pub fn default() -> (b: VerifyInputBuilder)
        ensures
            b.spec_input().base@ == Seq::<char>::empty(),
            b.spec_input().head is None,
            !b.spec_input().allow_deleted_changesets,
            !b.spec_input().exclude_dependents,
            !b.spec_input().ignore_dirty,
    {
        VerifyInputBuilder {
            input: VerifyInput {
                base: String::new(),
                head: None,
                allow_deleted_changesets: false,
                exclude_dependents: false,
                ignore_dirty: false,
            },
        }
    }

    pub fn base(self, value: String) -> (b: VerifyInputBuilder)
        ensures
            b.spec_input().base == value,
            b.spec_input().head == self.spec_input().head,
            b.spec_input().allow_deleted_changesets == self.spec_input().allow_deleted_changesets,
            b.spec_input().exclude_dependents == self.spec_input().exclude_dependents,
            b.spec_input().ignore_dirty == self.spec_input().ignore_dirty,
    {
        let mut b = self;
        b.input.base = value;
        b
    }

    pub fn head(self, value: Option<String>) -> (b: VerifyInputBuilder)
        ensures
            b.spec_input().base == self.spec_input().base,
            b.spec_input().head == value,
            b.spec_input().allow_deleted_changesets == self.spec_input().allow_deleted_changesets,
            b.spec_input().exclude_dependents == self.spec_input().exclude_dependents,
            b.spec_input().ignore_dirty == self.spec_input().ignore_dirty,
    {
        let mut b = self;
        b.input.head = value;
        b
    }

    pub fn allow_deleted_changesets(self, value: bool) -> (b: VerifyInputBuilder)
        ensures
            b.spec_input().base == self.spec_input().base,
            b.spec_input().head == self.spec_input().head,
            b.spec_input().allow_deleted_changesets == value,
            b.spec_input().exclude_dependents == self.spec_input().exclude_dependents,
            b.spec_input().ignore_dirty == self.spec_input().ignore_dirty,
    {
        let mut b = self;
        b.input.allow_deleted_changesets = value;
        b
    }

    pub fn exclude_dependents(self, value: bool) -> (b: VerifyInputBuilder)
        ensures
            b.spec_input().base == self.spec_input().base,
            b.spec_input().head == self.spec_input().head,
            b.spec_input().allow_deleted_changesets == self.spec_input().allow_deleted_changesets,
            b.spec_input().exclude_dependents == value,
            b.spec_input().ignore_dirty == self.spec_input().ignore_dirty,
    {
        let mut b = self;
        b.input.exclude_dependents = value;
        b
    }

    pub fn ignore_dirty(self, value: bool) -> (b: VerifyInputBuilder)
        ensures
            b.spec_input().base == self.spec_input().base,
            b.spec_input().head == self.spec_input().head,
            b.spec_input().allow_deleted_changesets == self.spec_input().allow_deleted_changesets,
            b.spec_input().exclude_dependents == self.spec_input().exclude_dependents,
            b.spec_input().ignore_dirty == value,
    {
        let mut b = self;
        b.input.ignore_dirty = value;
        b
    }

    /// Every field has a default, so building always succeeds.
    pub fn build(self) -> (r: core::result::Result<VerifyInput, BuilderError>)
        ensures
            r matches Ok(i) && i == self.spec_input(),
    {
        Ok(self.input)
    }
}

/// What the checks see: the affected packages, the changesets and the
/// files of the change.
#[derive(Debug)]
pub struct VerificationContext {
    /// Packages with changed files, then their dependents (unless excluded).
    pub affected_packages: Vec<PackageInfo>,
    /// The affected packages that are affected only as dependents, in name order.
    pub transitive_dependents: Vec<String>,
    /// Changeset files added or changed by the change.
    pub changeset_files: Vec<String>,
    /// Changeset files deleted by the change.
    pub deleted_changesets: Vec<String>,
    pub project_files: Vec<String>,
    pub ignored_files: Vec<String>,
}

/// The findings of the checks.
#[derive(Debug)]
pub struct VerificationResult {
    /// Affected packages that a changeset releases, in name order.
    pub covered_packages: Vec<String>,
    /// Affected packages that no changeset releases, in affected order.
    pub uncovered_packages: Vec<PackageInfo>,
    /// Affected packages that are affected only as dependents, in name order.
    pub transitive_dependents: Vec<String>,
    /// Deleted changesets, unless deletions are allowed.
    pub deleted_changesets: Vec<String>,
    /// Changesets with a `none` bump, when the configuration refuses them.
    pub none_bump_violations: Vec<String>,
}

impl VerificationResult {
    pub fn covered_packages(&self) -> (r: &Vec<String>)
        ensures
            r == &self.covered_packages,
    {
        &self.covered_packages
    }

    pub fn uncovered_packages(&self) -> (r: &Vec<PackageInfo>)
        ensures
            r == &self.uncovered_packages,
    {
        &self.uncovered_packages
    }

    pub fn transitive_dependents(&self) -> (r: &Vec<String>)
        ensures
            r == &self.transitive_dependents,
    {
        &self.transitive_dependents
    }

    pub fn deleted_changesets(&self) -> (r: &Vec<String>)
        ensures
            r == &self.deleted_changesets,
    {
        &self.deleted_changesets
    }

    pub fn none_bump_violations(&self) -> (r: &Vec<String>)
        ensures
            r == &self.none_bump_violations,
    {
        &self.none_bump_violations
    }

    /// Nothing is uncovered, deleted against the rules, or bumped by `none`
    /// against the rules.
    pub open spec fn is_success_spec(&self) -> bool {
        self.uncovered_packages@.len() == 0 && self.deleted_changesets@.len() == 0
            && self.none_bump_violations@.len() == 0
    }

    pub fn is_success(&self) -> (r: bool)
        ensures
            r == self.is_success_spec(),
    {
        self.uncovered_packages.len() == 0 && self.deleted_changesets.len() == 0 && self.none_bump_violations.len() == 0
    }
}

/// What a verification concluded.
#[derive(Debug)]
pub enum VerifyOutcome {
    Success(VerificationResult),
    /// No code changed and no changeset was deleted.
    NoChanges,
    /// Only files outside every package, or ignored files, changed.
    NoPackagesAffected { project_file_count: usize, ignored_file_count: usize },
    Failed(VerificationResult),
}

/// The outcome, and whether uncommitted changes were verified.
#[derive(Debug)]
pub struct VerifyResult {
    pub is_dirty: bool,
    pub outcome: VerifyOutcome,
}

/// Some changeset of the list releases the named package.
pub open spec fn released_by(cs: Seq<(String, Changeset)>, n: Seq<char>) -> bool {
    exists|c: int, r: int|
        0 <= c < cs.len() && 0 <= r < cs[c].1.releases@.len() && #[trigger] cs[c].1.releases@[r].name@ == n
}

/// Some changeset asks for a `none` bump of package `n`.
pub open spec fn none_bumped(cs: Seq<(String, Changeset)>, n: Seq<char>) -> bool {
    exists|c: int, r: int|
        0 <= c < cs.len() && 0 <= r < cs[c].1.releases@.len() && #[trigger] cs[c].1.releases@[r].name@ == n
            && cs[c].1.releases@[r].bump_type == BumpType::NoBump
}

/// `none_bumped`, counting only the releases before release `r` of
/// changeset `c`.
pub open spec fn none_bumped_before(cs: Seq<(String, Changeset)>, c: int, r: int, n: Seq<char>) -> bool {
    exists|cc: int, rr: int|
        0 <= cc < cs.len() && 0 <= rr < cs[cc].1.releases@.len() && (cc < c || (cc == c && rr < r))
            && #[trigger] cs[cc].1.releases@[rr].name@ == n && cs[cc].1.releases@[rr].bump_type == BumpType::NoBump
}

/// The affected packages that no changeset releases, in order.
pub open spec fn uncovered_spec(affected: Seq<PackageInfo>, cs: Seq<(String, Changeset)>) -> Seq<PackageInfo>
    decreases affected.len(),
{
    if affected.len() == 0 {
        Seq::empty()
    } else {
        let prev = uncovered_spec(affected.drop_last(), cs);
        if released_by(cs, affected.last().name@) {
            prev
        } else {
            prev.push(affected.last())
        }
    }
}

/// The paths of the changesets with a `none` bump, in order.
/// Whether some changeset releases `name`.
fn is_released(changesets: &Vec<(String, Changeset)>, name: &str) -> (r: bool)
    ensures
        r == released_by(changesets@, name@),
{
    let mut c: usize = 0;
    while c < changesets.len()
        invariant
            c <= changesets.len(),
            forall|cc: int, rr: int|
                0 <= cc < c && 0 <= rr < changesets@[cc].1.releases@.len() ==> #[trigger] changesets@[cc].1.releases@[rr].name@
                    != name@,
        decreases changesets.len() - c,
    {
        let releases = &changesets[c].1.releases;
        let mut r: usize = 0;
        while r < releases.len()
            invariant
                r <= releases.len(),
                c < changesets@.len(),
                releases@ == changesets@[c as int].1.releases@,
                forall|cc: int, rr: int|
                    0 <= cc < c && 0 <= rr < changesets@[cc].1.releases@.len() ==> #[trigger] changesets@[cc].1.releases@[rr].name@
                        != name@,
                forall|rr: int| 0 <= rr < r ==> #[trigger] releases@[rr].name@ != name@,
            decreases releases.len() - r,
        {
            if crate::text::str_eq(releases[r].name.as_str(), name) {
                proof {
                    assert(changesets@[c as int].1.releases@[r as int].name@ == name@);
                }
                return true;
            }
            r = r + 1;
        }
        c = c + 1;
    }
    false
}


/// The context of a verification: the affected packages and changeset
/// files, with the unowned and ignored files of the mapping, if any.
pub fn build_context(
    mapping: Option<FileMapping>,
    affected_packages: Vec<PackageInfo>,
    transitive_dependents: Vec<String>,
    changeset_files: Vec<String>,
    deleted_changesets: Vec<String>,
) -> (r: VerificationContext)
    ensures
        r.affected_packages == affected_packages,
        r.transitive_dependents == transitive_dependents,
        r.changeset_files == changeset_files,
        r.deleted_changesets == deleted_changesets,
        match mapping {
            Some(m) => r.project_files == m.project_files && r.ignored_files == m.ignored_files,
            None => r.project_files@.len() == 0 && r.ignored_files@.len() == 0,
        },
{
    let (project_files, ignored_files) = match mapping {
        Some(m) => (m.project_files, m.ignored_files),
        None => (Vec::new(), Vec::new()),
    };
    VerificationContext {
        affected_packages,
        transitive_dependents,
        changeset_files,
        deleted_changesets,
        project_files,
        ignored_files,
    }
}

/// The packages that some changeset asks a `none` bump for, in name order.
fn none_bump_packages(changesets: &Vec<(String, Changeset)>) -> (r: Vec<String>)
    ensures
        strictly_sorted(views(r@)),
        forall|n: Seq<char>| views(r@).contains(n) <==> none_bumped(changesets@, n),
{
    let mut names: Vec<String> = Vec::new();
    let mut c: usize = 0;
    while c < changesets.len()
        invariant
            c <= changesets.len(),
            strictly_sorted(views(names@)),
            forall|n: Seq<char>| views(names@).contains(n) <==> none_bumped_before(changesets@, c as int, 0, n),
        decreases changesets.len() - c,
    {
        let releases = &changesets[c].1.releases;
        let mut r: usize = 0;
        while r < releases.len()
            invariant
                c < changesets.len(),
                releases == &changesets@[c as int].1.releases,
                r <= releases.len(),
                strictly_sorted(views(names@)),
                forall|n: Seq<char>| views(names@).contains(n) <==> none_bumped_before(changesets@, c as int, r as int, n),
            decreases releases.len() - r,
        {
            let ghost before = views(names@);
            if releases[r].bump_type == BumpType::NoBump {
                insert_sorted(&mut names, releases[r].name.clone());
            }
            proof {
                assert forall|n: Seq<char>|
                    views(names@).contains(n) <==> none_bumped_before(changesets@, c as int, r + 1, n) by {
                    if none_bumped_before(changesets@, c as int, r + 1, n) {
                        let (cc, rr) = choose|cc: int, rr: int|
                            0 <= cc < changesets@.len() && 0 <= rr < changesets@[cc].1.releases@.len() && (cc < c || (cc == c
                                && rr < r + 1)) && #[trigger] changesets@[cc].1.releases@[rr].name@ == n
                                && changesets@[cc].1.releases@[rr].bump_type == BumpType::NoBump;
                        if rr < r || cc < c {
                            assert(none_bumped_before(changesets@, c as int, r as int, n));
                        }
                    }
                    if none_bumped_before(changesets@, c as int, r as int, n) {
                        let (cc, rr) = choose|cc: int, rr: int|
                            0 <= cc < changesets@.len() && 0 <= rr < changesets@[cc].1.releases@.len() && (cc < c || (cc == c
                                && rr < r)) && #[trigger] changesets@[cc].1.releases@[rr].name@ == n
                                && changesets@[cc].1.releases@[rr].bump_type == BumpType::NoBump;
                        assert(none_bumped_before(changesets@, c as int, r + 1, n));
                    }
                    if releases@[r as int].bump_type == BumpType::NoBump && n == releases@[r as int].name@ {
                        assert(changesets@[c as int].1.releases@[r as int].name@ == n);
                        assert(none_bumped_before(changesets@, c as int, r + 1, n));
                    }
                }
            }
            r = r + 1;
        }
        proof {
            assert forall|n: Seq<char>|
                views(names@).contains(n) <==> none_bumped_before(changesets@, c + 1, 0, n) by {
                if none_bumped_before(changesets@, c as int, releases@.len() as int, n) {
                    let (cc, rr) = choose|cc: int, rr: int|
                        0 <= cc < changesets@.len() && 0 <= rr < changesets@[cc].1.releases@.len() && (cc < c || (cc == c && rr
                            < releases@.len())) && #[trigger] changesets@[cc].1.releases@[rr].name@ == n
                            && changesets@[cc].1.releases@[rr].bump_type == BumpType::NoBump;
                    assert(none_bumped_before(changesets@, c + 1, 0, n));
                }
                if none_bumped_before(changesets@, c + 1, 0, n) {
                    let (cc, rr) = choose|cc: int, rr: int|
                        0 <= cc < changesets@.len() && 0 <= rr < changesets@[cc].1.releases@.len() && (cc < c + 1 || (cc == c
                            + 1 && rr < 0)) && #[trigger] changesets@[cc].1.releases@[rr].name@ == n
                            && changesets@[cc].1.releases@[rr].bump_type == BumpType::NoBump;
                    assert(none_bumped_before(changesets@, c as int, releases@.len() as int, n));
                }
            }
        }
        c = c + 1;
    }
    proof {
        assert forall|n: Seq<char>| views(names@).contains(n) <==> none_bumped(changesets@, n) by {
            if none_bumped(changesets@, n) {
                let (cc, rr) = choose|cc: int, rr: int|
                    0 <= cc < changesets@.len() && 0 <= rr < changesets@[cc].1.releases@.len()
                        && #[trigger] changesets@[cc].1.releases@[rr].name@ == n
                        && changesets@[cc].1.releases@[rr].bump_type == BumpType::NoBump;
                assert(none_bumped_before(changesets@, changesets@.len() as int, 0, n));
            }
        }
    }
    names
}

/// Runs the checks: every affected package must be released by one of
/// the changesets; deleted changesets are findings unless allowed; with
/// `Disallow`, packages that a changeset gives a `none` bump are findings.
pub fn evaluate_rules(
    context: &VerificationContext,
    changesets: &Vec<(String, Changeset)>,
    allow_deleted: bool,
    none_bump_behavior: NoneBumpBehavior,
) -> (res: VerificationResult)
    ensures
        strictly_sorted(views(res.covered_packages@)),
        forall|n: Seq<char>|
            #[trigger] views(res.covered_packages@).contains(n) <==> (package_names(context.affected_packages@).contains(n)
                && released_by(changesets@, n)),
        res.uncovered_packages@ == uncovered_spec(context.affected_packages@, changesets@),
        views(res.transitive_dependents@) == views(context.transitive_dependents@),
        views(res.deleted_changesets@) == if allow_deleted {
            Seq::<Seq<char>>::empty()
        } else {
            views(context.deleted_changesets@)
        },
        strictly_sorted(views(res.none_bump_violations@)),
        forall|n: Seq<char>|
            #[trigger] views(res.none_bump_violations@).contains(n) <==> (none_bump_behavior == NoneBumpBehavior::Disallow
                && none_bumped(changesets@, n)),
{
    let ghost affected = context.affected_packages@;
    let mut covered: Vec<String> = Vec::new();
    let mut uncovered: Vec<PackageInfo> = Vec::new();
    let mut i: usize = 0;
    while i < context.affected_packages.len()
        invariant
            i <= context.affected_packages.len(),
            affected == context.affected_packages@,
            strictly_sorted(views(covered@)),
            forall|n: Seq<char>|
                #[trigger] views(covered@).contains(n) <==> (package_names(affected.take(i as int)).contains(n) && released_by(
                    changesets@,
                    n,
                )),
            uncovered@ == uncovered_spec(affected.take(i as int), changesets@),
        decreases context.affected_packages.len() - i,
    {
        let p = &context.affected_packages[i];
        proof {
            assert(affected.take(i + 1).drop_last() =~= affected.take(i as int));
            assert(package_names(affected.take(i + 1)) =~= package_names(affected.take(i as int)).push(p.name@));
            crate::text::lemma_contains_push(package_names(affected.take(i as int)), p.name@);
        }
        let ghost before = views(covered@);
        let released = is_released(changesets, p.name.as_str());
        if released {
            insert_sorted(&mut covered, p.name.clone());
        } else {
            uncovered.push(p.clone());
        }
        proof {
            let pn0 = package_names(affected.take(i as int));
            let pn1 = package_names(affected.take(i + 1));
            assert forall|n: Seq<char>| views(covered@).contains(n) <==> (pn1.contains(n) && released_by(changesets@, n)) by {
                assert(before.contains(n) <==> (pn0.contains(n) && released_by(changesets@, n)));
                assert(pn1.contains(n) <==> (pn0.contains(n) || n == p.name@));
                if released {
                    assert(views(covered@).contains(n) <==> (before.contains(n) || n == p.name@));
                }
            }
        }
        i = i + 1;
    }
    proof {
        assert(affected.take(affected.len() as int) =~= affected);
        assert forall|n: Seq<char>|
            views(covered@).contains(n) <==> (package_names(affected).contains(n) && released_by(changesets@, n)) by {
            assert(package_names(affected.take(affected.len() as int)) == package_names(affected));
        }
    }
    let deleted = if allow_deleted {
        Vec::new()
    } else {
        crate::model::clone_strings(&context.deleted_changesets)
    };
    let violations = if none_bump_behavior == NoneBumpBehavior::Disallow {
        none_bump_packages(changesets)
    } else {
        Vec::new()
    };
    VerificationResult {
        covered_packages: covered,
        uncovered_packages: uncovered,
        transitive_dependents: crate::model::clone_strings(&context.transitive_dependents),
        deleted_changesets: deleted,
        none_bump_violations: violations,
    }
}

/// The changeset a change deletes: a deleted markdown file, or the former
/// path of a markdown file renamed out of the changeset directory's files.
pub open spec fn deleted_path(c: FileChange, dir: Seq<char>) -> Option<Seq<char>> {
    match c.status {
        FileStatus::Deleted => if is_markdown_spec(c.path@) {
            Some(c.path@)
        } else {
            None
        },
        FileStatus::Renamed => match c.old_path {
            Some(o) => if path_starts_with_spec(o@, dir) && is_markdown_spec(o@) {
                Some(o@)
            } else {
                None
            },
            None => None,
        },
        _ => None,
    }
}

/// The changesets a list of changes deletes, in order.
pub open spec fn deleted_spec(cs: Seq<FileChange>, dir: Seq<char>) -> Seq<Seq<char>>
    decreases cs.len(),
{
    if cs.len() == 0 {
        Seq::empty()
    } else {
        let prev = deleted_spec(cs.drop_last(), dir);
        match deleted_path(cs.last(), dir) {
            Some(p) => prev.push(p),
            None => prev,
        }
    }
}

/// A markdown file that the change leaves in place.
pub open spec fn is_active(c: FileChange) -> bool {
    is_markdown_spec(c.path@) && (c.status is Added || c.status is Modified || c.status is Renamed
        || c.status is Typechange)
}

/// The changeset files a list of changes adds or changes, in order.
pub open spec fn active_spec(cs: Seq<FileChange>) -> Seq<Seq<char>>
    decreases cs.len(),
{
    if cs.len() == 0 {
        Seq::empty()
    } else {
        let prev = active_spec(cs.drop_last());
        if is_active(cs.last()) {
            prev.push(cs.last().path@)
        } else {
            prev
        }
    }
}

/// The paths of the changes inside (`inside`) or outside the changeset
/// directory, in order.
pub open spec fn paths_where(cs: Seq<FileChange>, dir: Seq<char>, inside: bool) -> Seq<Seq<char>>
    decreases cs.len(),
{
    if cs.len() == 0 {
        Seq::empty()
    } else {
        let prev = paths_where(cs.drop_last(), dir, inside);
        if path_starts_with_spec(cs.last().path@, dir) == inside {
            prev.push(cs.last().path@)
        } else {
            prev
        }
    }
}

/// The changes inside the changeset directory, in order.
pub open spec fn changes_inside(cs: Seq<FileChange>, dir: Seq<char>) -> Seq<FileChange>
    decreases cs.len(),
{
    if cs.len() == 0 {
        Seq::empty()
    } else {
        let prev = changes_inside(cs.drop_last(), dir);
        if path_starts_with_spec(cs.last().path@, dir) {
            prev.push(cs.last())
        } else {
            prev
        }
    }
}

/// The changesets that the changes delete.
pub fn extract_deleted_changesets(changes: &Vec<FileChange>, changeset_dir: &str) -> (r: Vec<String>)
    ensures
        views(r@) == deleted_spec(changes@, changeset_dir@),
{
    proof {
        reveal_strlit("md");
    }
    let mut r: Vec<String> = Vec::new();
    let mut i: usize = 0;
    while i < changes.len()
        invariant
            i <= changes.len(),
            views(r@) == deleted_spec(changes@.take(i as int), changeset_dir@),
        decreases changes.len() - i,
    {
        proof {
            assert(changes@.take(i + 1).drop_last() =~= changes@.take(i as int));
        }
        let c = &changes[i];
        match c.status {
            FileStatus::Deleted => {
                if is_markdown_file(c.path.as_str()) {
                    push_string(&mut r, c.path.clone());
                }
            },
            FileStatus::Renamed => {
                match &c.old_path {
                    Some(o) => {
                        if path_starts_with(o.as_str(), changeset_dir) && is_markdown_file(o.as_str()) {
                            push_string(&mut r, o.clone());
                        }
                    },
                    None => {},
                }
            },
            _ => {},
        }
        i = i + 1;
    }
    proof {
        assert(changes@.take(changes@.len() as int) =~= changes@);
    }
    r
}

/// The changeset files that the changes add or change.
pub fn extract_active_changesets(changes: &Vec<FileChange>) -> (r: Vec<String>)
    ensures
        views(r@) == active_spec(changes@),
{
    let mut r: Vec<String> = Vec::new();
    let mut i: usize = 0;
    while i < changes.len()
        invariant
            i <= changes.len(),
            views(r@) == active_spec(changes@.take(i as int)),
        decreases changes.len() - i,
    {
        proof {
            assert(changes@.take(i + 1).drop_last() =~= changes@.take(i as int));
        }
        let c = &changes[i];
        let kept = match c.status {
            FileStatus::Added | FileStatus::Modified | FileStatus::Renamed | FileStatus::Typechange => true,
            FileStatus::Deleted => false,
        };
        if kept && is_markdown_file(c.path.as_str()) {
            push_string(&mut r, c.path.clone());
        }
        i = i + 1;
    }
    proof {
        assert(changes@.take(changes@.len() as int) =~= changes@);
    }
    r
}

/// Splits the changes into those inside the changeset directory and the
/// paths of the others.
pub fn split_changes(changes: &Vec<FileChange>, changeset_dir: &str) -> (r: (Vec<FileChange>, Vec<String>))
    ensures
        r.0@ == changes_inside(changes@, changeset_dir@),
        views(r.1@) == paths_where(changes@, changeset_dir@, false),
{
    let mut inside: Vec<FileChange> = Vec::new();
    let mut code: Vec<String> = Vec::new();
    let mut i: usize = 0;
    while i < changes.len()
        invariant
            i <= changes.len(),
            inside@ == changes_inside(changes@.take(i as int), changeset_dir@),
            views(code@) == paths_where(changes@.take(i as int), changeset_dir@, false),
        decreases changes.len() - i,
    {
        proof {
            assert(changes@.take(i + 1).drop_last() =~= changes@.take(i as int));
        }
        let c = &changes[i];
        if path_starts_with(c.path.as_str(), changeset_dir) {
            inside.push(c.clone());
        } else {
            push_string(&mut code, c.path.clone());
        }
        i = i + 1;
    }
    proof {
        assert(changes@.take(changes@.len() as int) =~= changes@);
    }
    (inside, code)
}

/// The packages that depend on one of `seeds` and are not among them.
pub open spec fn dependents_of(edges: Seq<(String, String)>, seeds: Seq<Seq<char>>) -> spec_fn(Seq<char>) -> bool {
    |x: Seq<char>| !seeds.contains(x) && crate::graph::depends_on_any(crate::graph::edge_views(edges), seeds, x)
}

/// The affected packages after adding, in project order, each package
/// that satisfies `deps` and is not yet affected.
pub open spec fn expand_affected(pkgs: Seq<PackageInfo>, deps: spec_fn(Seq<char>) -> bool, acc: Seq<PackageInfo>, k: int) -> Seq<
    PackageInfo,
>
    decreases k,
{
    if k <= 0 {
        acc
    } else {
        let prev = expand_affected(pkgs, deps, acc, k - 1);
        if deps(pkgs[k - 1].name@) && !package_names(prev).contains(pkgs[k - 1].name@) {
            prev.push(pkgs[k - 1])
        } else {
            prev
        }
    }
}

/// Adds to the affected packages the packages of the project that depend
/// on them, directly or transitively; returns the new list and the names
/// that were added, in name order.
pub fn add_transitive_dependents(
    project: &CargoProject,
    affected: Vec<PackageInfo>,
    graph: &WorkspaceDependencyGraph,
) -> (r: (Vec<PackageInfo>, Vec<String>))
    ensures
        r.0@ == expand_affected(
            project.packages@,
            dependents_of(graph.edges@, package_names(affected@)),
            affected@,
            project.packages@.len() as int,
        ),
        strictly_sorted(views(r.1@)),
        forall|n: Seq<char>|
            views(r.1@).contains(n) <==> (package_names(r.0@).contains(n) && !package_names(affected@).contains(n)),
{
    let ghost acc = affected@;
    let mut names: Vec<String> = Vec::new();
    let mut i: usize = 0;
    while i < affected.len()
        invariant
            i <= affected.len(),
            views(names@) == package_names(affected@.take(i as int)),
        decreases affected.len() - i,
    {
        push_string(&mut names, affected[i].name.clone());
        proof {
            assert(package_names(affected@.take(i + 1)) =~= package_names(affected@.take(i as int)).push(affected@[i as int].name@));
        }
        i = i + 1;
    }
    proof {
        assert(affected@.take(affected@.len() as int) =~= affected@);
    }
    let dependents = graph.transitive_dependents_of_set(&names);
    let ghost deps = dependents_of(graph.edges@, package_names(acc));
    let mut result = affected;
    let mut added: Vec<String> = Vec::new();
    let mut k: usize = 0;
    while k < project.packages.len()
        invariant
            k <= project.packages.len(),
            deps == dependents_of(graph.edges@, package_names(acc)),
            forall|x: Seq<char>| views(dependents@).contains(x) <==> deps(x),
            forall|n: Seq<char>| package_names(acc).contains(n) ==> package_names(result@).contains(n),
            result@ == expand_affected(project.packages@, deps, acc, k as int),
            strictly_sorted(views(added@)),
            forall|n: Seq<char>|
                #[trigger] views(added@).contains(n) <==> (package_names(result@).contains(n) && !package_names(acc).contains(n)),
        decreases project.packages.len() - k,
    {
        let p = &project.packages[k];
        let ghost before = result@;
        let ghost added_before = views(added@);
        if contains_str(&dependents, p.name.as_str()) && crate::model::find_package(&result, p.name.as_str()).is_none() {
            result.push(p.clone());
            insert_sorted(&mut added, p.name.clone());
            proof {
                assert(package_names(result@) =~= package_names(before).push(p.name@));
                crate::text::lemma_contains_push(package_names(before), p.name@);
                assert forall|n: Seq<char>|
                    #[trigger] views(added@).contains(n) <==> (package_names(result@).contains(n) && !package_names(acc).contains(n)) by {
                    assert(added_before.contains(n) <==> (package_names(before).contains(n) && !package_names(acc).contains(n)));
                    if n == p.name@ {
                        assert(!package_names(before).contains(n));
                    }
                }
            }
        }
        k = k + 1;
    }
    (result, added)
}

/// Reads each changeset file, keeping its path.
pub fn read_changesets<R: ChangesetReader>(reader: &R, paths: &Vec<String>) -> (r: Result<Vec<(String, Changeset)>>)
    ensures
        r matches Ok(cs) ==> cs@.len() == paths@.len(),
        r matches Ok(cs) ==> forall|k: int| 0 <= k < paths@.len() ==> #[trigger] cs@[k].0@ == paths@[k]@,
        paths@.len() == 0 ==> r is Ok,
{
    let mut out: Vec<(String, Changeset)> = Vec::new();
    let mut i: usize = 0;
    while i < paths.len()
        invariant
            i <= paths.len(),
            out@.len() == i,
            forall|k: int| 0 <= k < i ==> #[trigger] out@[k].0@ == paths@[k]@,
        decreases paths.len() - i,
    {
        let changeset = reader.read_changeset(paths[i].as_str())?;
        let ghost before = out@;
        out.push((paths[i].clone(), changeset));
        proof {
            assert forall|k: int| 0 <= k < i + 1 implies #[trigger] out@[k].0@ == paths@[k]@ by {
                if k < i {
                    assert(out@[k] == before[k]);
                }
            }
        }
        i = i + 1;
    }
    proof {
        assert(i == paths@.len());
        assert forall|k: int| 0 <= k < paths@.len() implies #[trigger] out@[k].0@ == paths@[k]@ by {
            assert(k < i);
        }
    }
    let r: Result<Vec<(String, Changeset)>> = Ok(out);
    proof {
        assert(r matches Ok(cs) && cs@ == out@);
    }
    r
}

/// The packages that the changed code files affect themselves, before
/// their dependents are added: the files outside the changeset directory,
/// mapped to packages with the project's and the packages' ignore patterns.
pub open spec fn directly_affected(
    project: CargoProject,
    root_config: RootChangesetConfig,
    package_configs: Seq<(String, PackageChangesetConfig)>,
    changed: Seq<FileChange>,
) -> Seq<PackageInfo> {
    crate::verification::affected_spec(
        project.root@,
        project.packages@,
        package_configs,
        views(root_config.ignored_files@),
        paths_where(changed, root_config.changeset_dir@, false),
        project.packages@.len() as int,
    )
}

/// The packages a check holds against the changesets: those the changed
/// code affects and, unless dependents are excluded or the project has a
/// single package, every package that depends on one of them over the
/// dependency edges `edges`.
pub open spec fn checked_packages(
    project: CargoProject,
    root_config: RootChangesetConfig,
    package_configs: Seq<(String, PackageChangesetConfig)>,
    input: VerifyInput,
    changed: Seq<FileChange>,
    edges: Seq<(String, String)>,
) -> Seq<PackageInfo> {
    let direct = if paths_where(changed, root_config.changeset_dir@, false).len() > 0 {
        directly_affected(project, root_config, package_configs, changed)
    } else {
        Seq::empty()
    };
    if !input.exclude_dependents && project.packages@.len() > 1 && direct.len() > 0 {
        expand_affected(project.packages@, dependents_of(edges, package_names(direct)), direct, project.packages@.len() as int)
    } else {
        direct
    }
}

/// `cs` holds, in order, what was read from the changeset files that the
/// change adds or modifies.
pub open spec fn read_from(cs: Seq<(String, Changeset)>, dir: Seq<char>, changed: Seq<FileChange>) -> bool {
    let paths = active_spec(changes_inside(changed, dir));
    &&& cs.len() == paths.len()
    &&& forall|k: int| 0 <= k < cs.len() ==> #[trigger] cs[k].0@ == paths[k]
}

/// A check's findings for the dependency edges `edges` and the changesets
/// `cs` read from the changed changeset files: the checked packages that no
/// changeset releases, those that one does, and the `none` bumps when the
/// configuration refuses them.
pub open spec fn checked_against(
    v: VerificationResult,
    project: CargoProject,
    root_config: RootChangesetConfig,
    package_configs: Seq<(String, PackageChangesetConfig)>,
    input: VerifyInput,
    changed: Seq<FileChange>,
    edges: Seq<(String, String)>,
    cs: Seq<(String, Changeset)>,
) -> bool {
    let checked = checked_packages(project, root_config, package_configs, input, changed, edges);
    &&& read_from(cs, root_config.changeset_dir@, changed)
    &&& v.uncovered_packages@ == uncovered_spec(checked, cs)
    &&& forall|n: Seq<char>| views(v.covered_packages@).contains(n) <==> (package_names(checked).contains(n) && released_by(cs, n))
    &&& forall|n: Seq<char>|
        views(v.none_bump_violations@).contains(n) <==> (root_config.none_bump_behavior == NoneBumpBehavior::Disallow
            && none_bumped(cs, n))
}

/// The deleted changesets a check reports: none when deletions are allowed.
pub open spec fn reported_deletions(dir: Seq<char>, changed: Seq<FileChange>, allow: bool) -> Seq<Seq<char>> {
    if allow {
        Seq::empty()
    } else {
        deleted_spec(changes_inside(changed, dir), dir)
    }
}

/// Where the changed files of a check come from.
pub enum ChangeSource {
    /// The uncommitted changes of the working tree.
    Uncommitted,
    /// The changes between two revisions.
    Between { base: String, head: String },
}

/// The head revision a check compares against: the input's, else `HEAD`.
pub open spec fn head_ref_spec(input: VerifyInput) -> Seq<char> {
    match input.head {
        Some(h) => h@,
        None => "HEAD"@,
    }
}

/// A dirty working tree is checked by its uncommitted changes; otherwise
/// the changes from the input's base to its head, `HEAD` by default.
pub fn change_source(input: &VerifyInput, working_tree_dirty: bool) -> (r: ChangeSource)
    ensures
        working_tree_dirty ==> r is Uncommitted,
        !working_tree_dirty ==> (r matches ChangeSource::Between { base, head } && base@ == input.base@ && head@
            == head_ref_spec(*input)),
{
    if working_tree_dirty {
        return ChangeSource::Uncommitted;
    }
    let head = match &input.head {
        Some(h) => h.clone(),
        None => String::from_str("HEAD"),
    };
    ChangeSource::Between { base: input.base.clone(), head }
}

/// Verifies that the changes of a branch (or of the working tree, when it
/// has uncommitted changes) come with changesets for every package they
/// affect.
pub struct VerifyOperation<P, G, R> {
    project_provider: P,
    git_provider: G,
    changeset_reader: R,
}

impl<
    P: ProjectProvider + DependencyGraphProvider,
    G: GitDiffProvider + GitWorkdirDiffProvider + GitStatusProvider,
    R: ChangesetReader,
> VerifyOperation<P, G, R> {
    pub closed spec fn parts(&self) -> (P, G, R) {
        (self.project_provider, self.git_provider, self.changeset_reader)
    }

    pub fn new(project_provider: P, git_provider: G, changeset_reader: R) -> (r: Self)
        ensures
            r.parts() == (project_provider, git_provider, changeset_reader),
    {
        VerifyOperation { project_provider, git_provider, changeset_reader }
    }

    /// Finds the changed files (uncommitted ones when the working tree is
    /// dirty, otherwise those between `base` and `head`) and checks them
    /// with [`Self::verify_changes`].
    pub fn execute(&self, start_path: &str, input: &VerifyInput) -> (r: Result<VerifyResult>)
        ensures
            r matches Ok(res) ==> (input.ignore_dirty ==> !res.is_dirty),
            r matches Ok(res) ==> (res.outcome matches VerifyOutcome::Success(v) ==> v.is_success_spec()),
            r matches Ok(res) ==> (res.outcome matches VerifyOutcome::Failed(v) ==> !v.is_success_spec()),
    {
        let project = self.project_provider.discover_project(start_path)?;
        let (root_config, package_configs) = self.project_provider.load_configs(&project)?;
        let working_tree_dirty = if input.ignore_dirty {
            false
        } else {
            !self.git_provider.is_working_tree_clean(project.root.as_str())?
        };
        let changed_files = match change_source(input, working_tree_dirty) {
            ChangeSource::Uncommitted => self.git_provider.uncommitted_changes(project.root.as_str())?,
            ChangeSource::Between { base, head } => self.git_provider.changed_files(
                project.root.as_str(),
                base.as_str(),
                head.as_str(),
            )?,
        };
        self.verify_changes(&project, &root_config, &package_configs, input, working_tree_dirty, changed_files)
    }

    /// Checks a set of changed files: sorts them into changeset files and
    /// code, maps the code to packages, adds their dependents unless asked
    /// not to, and checks the packages against the changesets. Without code
    /// changes and deleted changesets there is nothing to check; without
    /// affected packages and deleted changesets, nothing to check either.
    pub fn verify_changes(
        &self,
        project: &CargoProject,
        root_config: &RootChangesetConfig,
        package_configs: &Vec<(String, PackageChangesetConfig)>,
        input: &VerifyInput,
        working_tree_dirty: bool,
        changed_files: Vec<FileChange>,
    ) -> (r: Result<VerifyResult>)
        ensures
            r matches Ok(res) ==> res.is_dirty == (working_tree_dirty && changed_files@.len() > 0),
            (paths_where(changed_files@, root_config.changeset_dir@, false).len() == 0 && deleted_spec(
                changes_inside(changed_files@, root_config.changeset_dir@),
                root_config.changeset_dir@,
            ).len() == 0) ==> (r matches Ok(res) && res.outcome is NoChanges),
            r matches Ok(res) ==> (res.outcome is NoChanges ==> paths_where(changed_files@, root_config.changeset_dir@, false).len()
                == 0 && deleted_spec(changes_inside(changed_files@, root_config.changeset_dir@), root_config.changeset_dir@).len()
                == 0),
            r matches Ok(res) ==> (res.outcome matches VerifyOutcome::NoPackagesAffected { .. } ==> deleted_spec(
                changes_inside(changed_files@, root_config.changeset_dir@),
                root_config.changeset_dir@,
            ).len() == 0),
            r matches Ok(res) ==> (res.outcome matches VerifyOutcome::Success(v) ==> v.is_success_spec()),
            r matches Ok(res) ==> (res.outcome matches VerifyOutcome::Failed(v) ==> !v.is_success_spec()),
            r matches Ok(res) ==> (res.outcome matches VerifyOutcome::Success(v) ==> (input.allow_deleted_changesets
                ==> v.deleted_changesets@.len() == 0)),
            r matches Ok(res) ==> (res.outcome matches VerifyOutcome::Failed(v) ==> (input.allow_deleted_changesets
                ==> v.deleted_changesets@.len() == 0)),
            r matches Ok(res) ==> (res.outcome matches VerifyOutcome::Success(v) ==> exists|
                edges: Seq<(String, String)>,
                cs: Seq<(String, Changeset)>,
            | #[trigger] checked_against(v, *project, *root_config, package_configs@, *input, changed_files@, edges, cs)),
            r matches Ok(res) ==> (res.outcome matches VerifyOutcome::Failed(v) ==> exists|
                edges: Seq<(String, String)>,
                cs: Seq<(String, Changeset)>,
            | #[trigger] checked_against(v, *project, *root_config, package_configs@, *input, changed_files@, edges, cs)),
            r matches Ok(res) ==> (res.outcome matches VerifyOutcome::Success(v) ==> views(v.deleted_changesets@)
                == reported_deletions(root_config.changeset_dir@, changed_files@, input.allow_deleted_changesets)),
            r matches Ok(res) ==> (res.outcome matches VerifyOutcome::Failed(v) ==> views(v.deleted_changesets@)
                == reported_deletions(root_config.changeset_dir@, changed_files@, input.allow_deleted_changesets)),
            (paths_where(changed_files@, root_config.changeset_dir@, false).len() > 0 && directly_affected(
                *project,
                *root_config,
                package_configs@,
                changed_files@,
            ).len() == 0 && deleted_spec(changes_inside(changed_files@, root_config.changeset_dir@), root_config.changeset_dir@).len()
                == 0) ==> (r matches Ok(res) && res.outcome is NoPackagesAffected),
            r matches Ok(res) ==> (res.outcome is NoPackagesAffected ==> paths_where(
                changed_files@,
                root_config.changeset_dir@,
                false,
            ).len() > 0 && ((input.exclude_dependents || project.packages@.len() <= 1) ==> directly_affected(
                *project,
                *root_config,
                package_configs@,
                changed_files@,
            ).len() == 0)),
    {
        let changeset_dir = root_config.changeset_dir.as_str();
        let is_dirty = working_tree_dirty && changed_files.len() > 0;
        let (changeset_changes, changed_paths) = split_changes(&changed_files, changeset_dir);
        let deleted_changesets = extract_deleted_changesets(&changeset_changes, changeset_dir);
        let changeset_files = extract_active_changesets(&changeset_changes);
        let has_deleted_changesets = deleted_changesets.len() > 0;
        let has_code_changes = changed_paths.len() > 0;
        if !has_code_changes && !has_deleted_changesets {
            return Ok(VerifyResult { is_dirty, outcome: VerifyOutcome::NoChanges });
        }
        let mapping: Option<FileMapping> = if has_code_changes {
            Some(map_files_to_packages(project, &changed_paths, root_config, package_configs))
        } else {
            None
        };
        let mut affected_packages = match &mapping {
            Some(m) => crate::model::clone_packages(&m.affected_packages),
            None => Vec::new(),
        };
        let mut transitive_dependents: Vec<String> = Vec::new();
        let ghost mut edges: Seq<(String, String)> = Seq::empty();
        proof {
            if has_code_changes {
                assert(affected_packages@ == directly_affected(*project, *root_config, package_configs@, changed_files@));
            }
            assert(affected_packages@ == (if paths_where(changed_files@, root_config.changeset_dir@, false).len() > 0 {
                directly_affected(*project, *root_config, package_configs@, changed_files@)
            } else {
                Seq::empty()
            }));
        }
        if !input.exclude_dependents && project.packages.len() > 1 && affected_packages.len() > 0 {
            let graph = self.project_provider.build_dependency_graph(project)?;
            proof {
                edges = graph.edges@;
            }
            let (expanded, added) = add_transitive_dependents(project, affected_packages, &graph);
            affected_packages = expanded;
            transitive_dependents = added;
        }
        proof {
            assert(affected_packages@ == checked_packages(
                *project,
                *root_config,
                package_configs@,
                *input,
                changed_files@,
                edges,
            ));
        }
        if affected_packages.len() == 0 && !has_deleted_changesets {
            let (project_file_count, ignored_file_count) = match &mapping {
                Some(m) => (m.project_files.len(), m.ignored_files.len()),
                None => (0, 0),
            };
            return Ok(VerifyResult { is_dirty, outcome: VerifyOutcome::NoPackagesAffected { project_file_count, ignored_file_count } });
        }
        let context = build_context(mapping, affected_packages, transitive_dependents, changeset_files, deleted_changesets);
        let changesets = read_changesets(&self.changeset_reader, &context.changeset_files)?;
        let result = evaluate_rules(&context, &changesets, input.allow_deleted_changesets, root_config.none_bump_behavior);
        proof {
            assert(views(result.deleted_changesets@).len() == result.deleted_changesets@.len());
            let paths = active_spec(changes_inside(changed_files@, root_config.changeset_dir@));
            assert forall|k: int| 0 <= k < changesets@.len() implies #[trigger] changesets@[k].0@ == paths[k] by {
                assert(views(context.changeset_files@)[k] == context.changeset_files@[k]@);
            }
            let checked = checked_packages(*project, *root_config, package_configs@, *input, changed_files@, edges);
            assert(context.affected_packages@ == checked);
            assert(read_from(changesets@, root_config.changeset_dir@, changed_files@));
            assert(result.uncovered_packages@ == uncovered_spec(checked, changesets@));
            assert forall|n: Seq<char>| views(result.covered_packages@).contains(n) <==> (package_names(checked).contains(n)
                && released_by(changesets@, n)) by {
                assert(views(result.covered_packages@).contains(n) <==> (package_names(context.affected_packages@).contains(n)
                    && released_by(changesets@, n)));
            }
            assert forall|n: Seq<char>| views(result.none_bump_violations@).contains(n) <==> (root_config.none_bump_behavior
                == NoneBumpBehavior::Disallow && none_bumped(changesets@, n)) by {}
            assert(checked_against(
                result,
                *project,
                *root_config,
                package_configs@,
                *input,
                changed_files@,
                edges,
                changesets@,
            ));
        }
        proof {
            assert(exists|e: Seq<(String, String)>, c: Seq<(String, Changeset)>|
                #[trigger] checked_against(result, *project, *root_config, package_configs@, *input, changed_files@, e, c));
        }
        let ghost found = result;
        let outcome = if result.is_success() {
            VerifyOutcome::Success(result)
        } else {
            VerifyOutcome::Failed(result)
        };
        proof {
            assert(outcome matches VerifyOutcome::Success(v) ==> v == found);
            assert(outcome matches VerifyOutcome::Failed(v) ==> v == found);
        }
        Ok(VerifyResult { is_dirty, outcome })
    }
}

} // verus!

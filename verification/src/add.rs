//! Recording a new changeset: which packages it bumps and by how much, its
//! category and its description, taken from the input or asked for.
use vstd::prelude::*;

use indexmap::IndexSet;

use crate::error::{OperationError, Result};
use crate::model::{package_names, ChangeCategory, Changeset, PackageInfo, PackageRelease};
use crate::name_map::{ExactClone, NameMap};
use crate::paths::{path_join, path_join_spec};
use crate::text::{join_seqs, join_strings, lemma_trim_idempotent, push_string, trim, trim_spec, views};
use crate::traits::{
    BumpSelection, CategorySelection, ChangesetWriter, DescriptionInput, InteractionProvider, PackageSelection,
    ProjectProvider,
};
use crate::validator::first_package;
use crate::version::BumpType;

verus! {

impl ExactClone for BumpType {
    fn exact_clone(&self) -> (r: Self) {
        *self
    }
}

/// Declares `indexmap::IndexSet`, the insertion-ordered set of package names.
#[verifier::external_type_specification]
#[verifier::external_body]
#[verifier::reject_recursive_types(T)]
#[verifier::reject_recursive_types(S)]
pub struct ExIndexSet<T, S>(IndexSet<T, S>);

/// The names in a set, in insertion order.
pub uninterp spec fn name_set_items(s: IndexSet<String>) -> Seq<Seq<char>>;

/// Calls `IndexSet::new`: the set starts empty.
#[verifier::external_body]
fn name_set_new() -> (s: IndexSet<String>)
    ensures
        name_set_items(s) == Seq::<Seq<char>>::empty(),
{
    IndexSet::new()
}

/// Calls `IndexSet::insert`: a name already in the set leaves it as it is
/// and yields `false`; a new one goes at the end and yields `true`.
#[verifier::external_body]
fn name_set_insert(s: &mut IndexSet<String>, name: String) -> (r: bool)
    ensures
        r == !name_set_items(*old(s)).contains(name@),
        name_set_items(*final(s)) == if name_set_items(*old(s)).contains(name@) {
            name_set_items(*old(s))
        } else {
            name_set_items(*old(s)).push(name@)
        },
{
    s.insert(name)
}

/// Calls `IndexSet::into_iter` and collects the names in insertion order.
#[verifier::external_body]
fn name_set_into_vec(s: IndexSet<String>) -> (r: Vec<String>)
    ensures
        views(r@) == name_set_items(s),
{
    s.into_iter().collect()
}

/// The names in order of first occurrence, each once.
pub open spec fn dedup_spec(names: Seq<Seq<char>>) -> Seq<Seq<char>>
    decreases names.len(),
{
    if names.len() == 0 {
        Seq::empty()
    } else {
        let prev = dedup_spec(names.drop_last());
        if prev.contains(names.last()) {
            prev
        } else {
            prev.push(names.last())
        }
    }
}

/// What the caller asks of a new changeset; what is left out is asked for.
pub struct AddInput {
    pub packages: Vec<String>,
    /// The bump of every package without its own.
    pub bump: Option<BumpType>,
    /// Bumps per package.
    pub package_bumps: NameMap<BumpType>,
    pub category: ChangeCategory,
    pub description: Option<String>,
}

impl Default for AddInput {
    /// Nothing given; the category is `Changed`.
    fn default() -> (r: Self)
        ensures
            r.packages@.len() == 0,
            r.bump is None,
            r.package_bumps.wf(),
            r.package_bumps.names().len() == 0,
            r.category == ChangeCategory::Changed,
            r.description is None,
    {
        AddInput {
            packages: Vec::new(),
            bump: None,
            package_bumps: NameMap::new(),
            category: ChangeCategory::Changed,
            description: None,
        }
    }
}

/// How adding a changeset ended.
#[derive(Debug)]
pub enum AddResult {
    Created { changeset: Changeset, file_path: String },
    Cancelled,
    /// The user selected no package.
    NoPackages,
}

/// The packages the input names, in its order and then those with their
/// own bump, each once.
pub open spec fn explicit_names_spec(input: AddInput) -> Seq<Seq<char>> {
    dedup_spec(views(input.packages@) + input.package_bumps.names())
}

/// The packages named on the input, each once, in order.
pub fn collect_explicit_packages(input: &AddInput) -> (r: Vec<String>)
    requires
        input.package_bumps.wf(),
    ensures
        views(r@) == explicit_names_spec(*input),
{
    let ghost all = views(input.packages@) + input.package_bumps.names();
    let mut set = name_set_new();
    let mut i: usize = 0;
    while i < input.packages.len()
        invariant
            i <= input.packages.len(),
            all == views(input.packages@) + input.package_bumps.names(),
            name_set_items(set) == dedup_spec(all.take(i as int)),
        decreases input.packages.len() - i,
    {
        proof {
            assert(all.take(i + 1).drop_last() =~= all.take(i as int));
            assert(all.take(i + 1).last() == input.packages@[i as int]@);
        }
        name_set_insert(&mut set, input.packages[i].clone());
        i = i + 1;
    }
    let keys = input.package_bumps.entries();
    proof {
        input.package_bumps.lemma_wf_facts();
    }
    let n = input.packages.len();
    let mut k: usize = 0;
    while k < keys.len()
        invariant
            k <= keys.len(),
            n == input.packages@.len(),
            all == views(input.packages@) + input.package_bumps.names(),
            crate::name_map::keyed_views(keys@) == input.package_bumps.pairs(),
            input.package_bumps.names().len() == input.package_bumps.pairs().len(),
            forall|x: int| 0 <= x < input.package_bumps.pairs().len() ==> #[trigger] input.package_bumps.pairs()[x].0 == input.package_bumps.names()[x],
            name_set_items(set) == dedup_spec(all.take(n + k)),
        decreases keys.len() - k,
    {
        proof {
            assert(all.take(n + k + 1).drop_last() =~= all.take(n + k));
            assert(input.package_bumps.pairs()[k as int].0 == keys@[k as int].0@);
            assert(all.take(n + k + 1).last() == keys@[k as int].0@);
        }
        name_set_insert(&mut set, keys[k].0.clone());
        k = k + 1;
    }
    proof {
        assert(all.take(n + keys.len()) =~= all);
    }
    name_set_into_vec(set)
}

/// The packages with the given names, in the order of the names; an
/// unknown name fails with `UnknownPackage`, listing the packages.
pub fn resolve_explicit_packages(packages: &Vec<PackageInfo>, names: &Vec<String>) -> (r: Result<Vec<PackageInfo>>)
    ensures
        r is Ok <==> forall|i: int| 0 <= i < names@.len() ==> #[trigger] first_package(packages@, names@[i]@) is Some,
        r matches Ok(v) ==> v@.len() == dedup_spec(views(names@)).len() && forall|i: int|
            0 <= i < v@.len() ==> Some((#[trigger] v@[i])@) == first_package(packages@, dedup_spec(views(names@))[i]),
        r matches Err(e) ==> e matches OperationError::UnknownPackage { name, available } && views(names@).contains(name@)
            && first_package(packages@, name@) is None && available@ == join_seqs(package_names(packages@), ", "@),
{
    let mut unique = name_set_new();
    let mut i: usize = 0;
    while i < names.len()
        invariant
            i <= names.len(),
            name_set_items(unique) == dedup_spec(views(names@).take(i as int)),
        decreases names.len() - i,
    {
        proof {
            assert(views(names@).take(i + 1).drop_last() =~= views(names@).take(i as int));
        }
        name_set_insert(&mut unique, names[i].clone());
        i = i + 1;
    }
    proof {
        assert(views(names@).take(names@.len() as int) =~= views(names@));
        lemma_dedup_members(views(names@));
    }
    let unique_names = name_set_into_vec(unique);
    let ghost u = dedup_spec(views(names@));
    let mut selected: Vec<PackageInfo> = Vec::new();
    let mut k: usize = 0;
    while k < unique_names.len()
        invariant
            k <= unique_names.len(),
            u == dedup_spec(views(names@)),
            views(unique_names@) == u,
            forall|x: Seq<char>| u.contains(x) <==> views(names@).contains(x),
            selected@.len() == k,
            forall|j: int| 0 <= j < k ==> Some((#[trigger] selected@[j])@) == first_package(packages@, u[j]),
            forall|j: int| 0 <= j < k ==> first_package(packages@, #[trigger] u[j]) is Some,
        decreases unique_names.len() - k,
    {
        let name = &unique_names[k];
        proof {
            assert(u[k as int] == name@);
        }
        match crate::validator::lookup_package(packages, name.as_str()) {
            Some(p) => {
                let ghost before = selected@;
                selected.push(packages[p].clone());
                proof {
                    assert forall|j: int| 0 <= j < k + 1 implies Some((#[trigger] selected@[j])@) == first_package(packages@, u[j]) by {
                        if j < k {
                            assert(selected@[j] == before[j]);
                        }
                    }
                }
            },
            None => {
                let mut listed: Vec<String> = Vec::new();
                let mut j: usize = 0;
                while j < packages.len()
                    invariant
                        j <= packages.len(),
                        views(listed@) == package_names(packages@.take(j as int)),
                    decreases packages.len() - j,
                {
                    push_string(&mut listed, packages[j].name.clone());
                    proof {
                        assert(package_names(packages@.take(j + 1)) =~= package_names(packages@.take(j as int)).push(packages@[j as int].name@));
                    }
                    j = j + 1;
                }
                proof {
                    assert(packages@.take(packages@.len() as int) =~= packages@);
                    assert(u.contains(name@));
                    if forall|x: int| 0 <= x < names@.len() ==> #[trigger] first_package(packages@, names@[x]@) is Some {
                        let x = choose|x: int| 0 <= x < views(names@).len() && views(names@)[x] == name@;
                        assert(first_package(packages@, names@[x]@) is Some);
                    }
                }
                return Err(OperationError::UnknownPackage { name: name.clone(), available: join_strings(&listed, ", ") });
            },
        }
        k = k + 1;
    }
    proof {
        assert forall|i: int| 0 <= i < names@.len() implies #[trigger] first_package(packages@, names@[i]@) is Some by {
            assert(views(names@)[i] == names@[i]@);
            assert(u.contains(names@[i]@));
            let j = choose|j: int| 0 <= j < u.len() && u[j] == names@[i]@;
        }
    }
    Ok(selected)
}

proof fn lemma_dedup_members(s: Seq<Seq<char>>)
    ensures
        forall|x: Seq<char>| dedup_spec(s).contains(x) <==> s.contains(x),
    decreases s.len(),
{
    if s.len() > 0 {
        lemma_dedup_members(s.drop_last());
        assert forall|x: Seq<char>| dedup_spec(s).contains(x) <==> s.contains(x) by {
            if s.contains(x) {
                let j = choose|j: int| 0 <= j < s.len() && s[j] == x;
                if j < s.len() - 1 {
                    assert(s.drop_last()[j] == x);
                }
            }
            if s.drop_last().contains(x) {
                let j = choose|j: int| 0 <= j < s.drop_last().len() && s.drop_last()[j] == x;
                assert(s[j] == x);
            }
            if x == s.last() {
                assert(s[s.len() - 1] == x);
            }
            let prev = dedup_spec(s.drop_last());
            let d = dedup_spec(s);
            if d.contains(x) {
                let k = choose|k: int| 0 <= k < d.len() && d[k] == x;
                if k < prev.len() {
                    assert(prev[k] == x);
                }
            }
            if prev.contains(x) {
                let k = choose|k: int| 0 <= k < prev.len() && prev[k] == x;
                assert(d[k] == x);
            }
            if !prev.contains(s.last()) {
                assert(d[prev.len() as int] == s.last());
            }
        }
    }
}

/// The bump a package gets without asking: its own, else the common one.
pub open spec fn given_bump(input: AddInput, name: Seq<char>) -> Option<BumpType> {
    match input.package_bumps.lookup(name) {
        Some(b) => Some(b),
        None => input.bump,
    }
}

/// A package's own bump takes precedence: a package with a bump in
/// `package_bumps` is given exactly that bump, whatever the common bump;
/// a package without one is given the common bump when there is one.
pub proof fn law_own_bump_wins(input: AddInput, name: Seq<char>)
    ensures
        input.package_bumps.lookup(name) matches Some(b) ==> given_bump(input, name) == Some(b),
        input.package_bumps.lookup(name) is None ==> given_bump(input, name) == input.bump,
{
}

/// The input names the packages, a bump for each and the description, so
/// nothing is asked and the user cannot back out.
pub open spec fn answers_everything(input: AddInput) -> bool {
    &&& explicit_names_spec(input).len() > 0
    &&& forall|i: int|
        0 <= i < explicit_names_spec(input).len() ==> given_bump(input, #[trigger] explicit_names_spec(input)[i]) is Some
    &&& input.description is Some
}

/// The category is taken from the input when it differs from the default
/// or when anything else was given; otherwise it is asked for.
pub open spec fn category_given(input: AddInput) -> bool {
    input.category != ChangeCategory::Changed || input.description is Some || input.packages@.len() > 0
        || input.package_bumps.names().len() > 0
}

/// Creates a changeset from the input, asking for what it lacks.
pub struct AddOperation<P, W, I> {
    project_provider: P,
    changeset_writer: W,
    interaction_provider: I,
}

impl<P: ProjectProvider, W: ChangesetWriter, I: InteractionProvider> AddOperation<P, W, I> {
    pub closed spec fn parts(&self) -> (P, W, I) {
        (self.project_provider, self.changeset_writer, self.interaction_provider)
    }

    pub fn new(project_provider: P, changeset_writer: W, interaction_provider: I) -> (r: Self)
        ensures
            r.parts() == (project_provider, changeset_writer, interaction_provider),
    {
        AddOperation { project_provider, changeset_writer, interaction_provider }
    }

    /// Selects the packages, their bumps, the category and the description,
    /// then writes the changeset into the changeset directory. A project
    /// without packages fails with `EmptyProject`; a description that is
    /// only white space fails with `EmptyDescription`.
    pub fn execute(&self, start_path: &str, input: AddInput) -> (r: Result<AddResult>)
        requires
            input.package_bumps.wf(),
        ensures
            r matches Ok(AddResult::Created { changeset, file_path }) ==> {
                &&& changeset.summary@.len() > 0
                &&& trim_spec(changeset.summary@) == changeset.summary@
                &&& (input.description matches Some(d) ==> changeset.summary@ == trim_spec(d@))
                &&& changeset.consumed_for_prerelease is None
                &&& !changeset.graduate
                &&& (category_given(input) ==> changeset.category == input.category)
                &&& (explicit_names_spec(input).len() > 0 ==> crate::model::release_views(changeset.releases@).map_values(
                    |r: (Seq<char>, BumpType)| r.0,
                ) == explicit_names_spec(input))
                &&& forall|i: int|
                    0 <= i < changeset.releases@.len() ==> (given_bump(input, (#[trigger] changeset.releases@[i]).name@) matches Some(
                        b,
                    ) ==> changeset.releases@[i].bump_type == b)
                &&& forall|i: int|
                    0 <= i < changeset.releases@.len() ==> (input.package_bumps.lookup(
                        (#[trigger] changeset.releases@[i]).name@,
                    ) matches Some(b) ==> changeset.releases@[i].bump_type == b)
            },
            r matches Ok(AddResult::NoPackages) ==> explicit_names_spec(input).len() == 0,
            r matches Ok(AddResult::Cancelled) ==> !answers_everything(input),
            answers_everything(input) && trim_spec(input.description->0@).len() == 0 ==> r is Err,
    {
        let project = self.project_provider.discover_project(start_path)?;
        if project.packages.len() == 0 {
            return Err(OperationError::EmptyProject(project.root));
        }
        let packages = match self.select_packages(&project.packages, &input)? {
            Some(packages) => {
                if packages.len() == 0 {
                    return Ok(AddResult::NoPackages);
                }
                packages
            },
            None => {
                return Ok(AddResult::Cancelled);
            },
        };
        proof {
            if answers_everything(input) {
                assert forall|i: int| 0 <= i < packages@.len() implies given_bump(input, (#[trigger] packages@[i]).name@) is Some by {
                    assert(packages@[i].name@ == explicit_names_spec(input)[i]);
                }
            }
        }
        let releases = match self.collect_releases(&packages, &input)? {
            Some(r) => r,
            None => {
                return Ok(AddResult::Cancelled);
            },
        };
        let category = match self.select_category(&input)? {
            Some(c) => c,
            None => {
                return Ok(AddResult::Cancelled);
            },
        };
        let description = match self.get_description(&input)? {
            Some(d) => d,
            None => {
                return Ok(AddResult::Cancelled);
            },
        };
        let trimmed = trim(description.as_str());
        if trimmed.unicode_len() == 0 {
            return Err(OperationError::EmptyDescription);
        }
        proof {
            lemma_trim_idempotent(description@);
        }
        let changeset = Changeset {
            summary: crate::text::owned(trimmed),
            category,
            releases,
            consumed_for_prerelease: None,
            graduate: false,
        };
        let (root_config, _) = self.project_provider.load_configs(&project)?;
        let changeset_dir = self.project_provider.ensure_changeset_dir(&project, &root_config)?;
        let filename = self.changeset_writer.write_changeset(changeset_dir.as_str(), &changeset)?;
        let file_path = path_join(changeset_dir.as_str(), filename.as_str());
        Ok(AddResult::Created { changeset, file_path })
    }

    /// The packages named on the input; else the only package; else the
    /// user's choice, `None` when cancelled.
    fn select_packages(&self, available: &Vec<PackageInfo>, input: &AddInput) -> (r: Result<Option<Vec<PackageInfo>>>)
        requires
            input.package_bumps.wf(),
        ensures
            explicit_names_spec(*input).len() > 0 ==> (r matches Ok(Some(v)) ==> v@.len() == explicit_names_spec(*input).len()
                && forall|i: int| 0 <= i < v@.len() ==> (#[trigger] v@[i]).name@ == explicit_names_spec(*input)[i]),
            explicit_names_spec(*input).len() > 0 ==> !(r matches Ok(None)),
            explicit_names_spec(*input).len() == 0 && available@.len() == 1 ==> (r matches Ok(Some(v)) && v@.len() == 1
                && v@[0]@ == available@[0]@),
    {
        let explicit = collect_explicit_packages(input);
        if explicit.len() > 0 {
            let packages = resolve_explicit_packages(available, &explicit)?;
            proof {
                lemma_dedup_unique(views(input.packages@) + input.package_bumps.names());
                assert forall|i: int| 0 <= i < packages@.len() implies (#[trigger] packages@[i]).name@ == explicit_names_spec(*input)[i] by {
                    lemma_first_package_name(available@, explicit_names_spec(*input)[i]);
                }
            }
            return Ok(Some(packages));
        }
        if available.len() == 1 {
            let mut only: Vec<PackageInfo> = Vec::new();
            only.push(available[0].clone());
            return Ok(Some(only));
        }
        match self.interaction_provider.select_packages(available.as_slice())? {
            PackageSelection::Selected(packages) => Ok(Some(packages)),
            PackageSelection::Cancelled => Ok(None),
        }
    }

    /// Each package's bump: its own, else the common one, else the user's
    /// choice; `None` when the user cancels.
    fn collect_releases(&self, packages: &Vec<PackageInfo>, input: &AddInput) -> (r: Result<Option<Vec<PackageRelease>>>)
        requires
            input.package_bumps.wf(),
        ensures
            r matches Ok(Some(v)) ==> v@.len() == packages@.len() && forall|i: int|
                0 <= i < v@.len() ==> (#[trigger] v@[i]).name@ == packages@[i].name@ && (given_bump(*input, packages@[i].name@) matches Some(
                    b,
                ) ==> v@[i].bump_type == b),
            (forall|i: int| 0 <= i < packages@.len() ==> given_bump(*input, (#[trigger] packages@[i]).name@) is Some) ==> r is Ok
                && r->Ok_0 is Some,
            r matches Ok(Some(v)) ==> forall|i: int|
                0 <= i < v@.len() ==> (input.package_bumps.lookup((#[trigger] v@[i]).name@) matches Some(b) ==> v@[i].bump_type
                    == b),
            r matches Ok(Some(v)) ==> forall|i: int|
                0 <= i < v@.len() ==> (input.package_bumps.lookup((#[trigger] v@[i]).name@) is None ==> (input.bump matches Some(
                    b,
                ) ==> v@[i].bump_type == b)),
    {
        let mut releases: Vec<PackageRelease> = Vec::new();
        let mut i: usize = 0;
        while i < packages.len()
            invariant
                i <= packages.len(),
                input.package_bumps.wf(),
                releases@.len() == i,
                forall|k: int|
                    0 <= k < i ==> (#[trigger] releases@[k]).name@ == packages@[k].name@ && (given_bump(*input, packages@[k].name@) matches Some(
                        b,
                    ) ==> releases@[k].bump_type == b),
            decreases packages.len() - i,
        {
            let name = &packages[i].name;
            let bump_type = match input.package_bumps.get(name.as_str()) {
                Some(b) => *b,
                None => match input.bump {
                    Some(b) => b,
                    None => match self.interaction_provider.select_bump_type(name.as_str())? {
                        BumpSelection::Selected(b) => b,
                        BumpSelection::Cancelled => {
                            return Ok(None);
                        },
                    },
                },
            };
            let ghost before = releases@;
            releases.push(PackageRelease { name: name.clone(), bump_type });
            proof {
                assert forall|k: int|
                    0 <= k < i + 1 implies (#[trigger] releases@[k]).name@ == packages@[k].name@ && (given_bump(*input, packages@[k].name@) matches Some(
                        b,
                    ) ==> releases@[k].bump_type == b) by {
                    if k < i {
                        assert(releases@[k] == before[k]);
                    }
                }
            }
            i = i + 1;
        }
        Ok(Some(releases))
    }

    /// The input's category when given, else the user's choice.
    fn select_category(&self, input: &AddInput) -> (r: Result<Option<ChangeCategory>>)
        ensures
            category_given(*input) ==> r == Ok::<Option<ChangeCategory>, OperationError>(Some(input.category)),
    {
        let has_explicit_input = input.description.is_some() || input.packages.len() > 0 || !input.package_bumps.is_empty();
        if input.category != ChangeCategory::Changed || has_explicit_input {
            return Ok(Some(input.category));
        }
        match self.interaction_provider.select_category()? {
            CategorySelection::Selected(category) => Ok(Some(category)),
            CategorySelection::Cancelled => Ok(None),
        }
    }

    /// The input's description when given, else the user's text.
    fn get_description(&self, input: &AddInput) -> (r: Result<Option<String>>)
        ensures
            input.description matches Some(d) ==> (r matches Ok(Some(t)) && t@ == d@),
    {
        match &input.description {
            Some(d) => {
                return Ok(Some(d.clone()));
            },
            None => {},
        }
        match self.interaction_provider.get_description()? {
            DescriptionInput::Provided(description) => Ok(Some(description)),
            DescriptionInput::Cancelled => Ok(None),
        }
    }
}

/// No name occurs twice.
pub open spec fn no_dups(s: Seq<Seq<char>>) -> bool {
    forall|i: int, j: int| 0 <= i < j < s.len() ==> s[i] != s[j]
}

proof fn lemma_dedup_no_dups(s: Seq<Seq<char>>)
    ensures
        no_dups(dedup_spec(s)),
    decreases s.len(),
{
    if s.len() > 0 {
        lemma_dedup_no_dups(s.drop_last());
        let prev = dedup_spec(s.drop_last());
        if !prev.contains(s.last()) {
            assert forall|i: int, j: int| 0 <= i < j < prev.push(s.last()).len() implies prev.push(s.last())[i] != prev.push(
                s.last(),
            )[j] by {
                if j == prev.len() {
                    assert(prev[i] == prev.push(s.last())[i]);
                }
            }
        }
    }
}

proof fn lemma_dedup_of_no_dups(s: Seq<Seq<char>>)
    requires
        no_dups(s),
    ensures
        dedup_spec(s) == s,
    decreases s.len(),
{
    if s.len() > 0 {
        let d = s.drop_last();
        assert forall|i: int, j: int| 0 <= i < j < d.len() implies d[i] != d[j] by {
            assert(d[i] == s[i] && d[j] == s[j]);
        }
        lemma_dedup_of_no_dups(d);
        if d.contains(s.last()) {
            let k = choose|k: int| 0 <= k < d.len() && d[k] == s.last();
            assert(s[k] == s[s.len() - 1]);
        }
        assert(d.push(s.last()) =~= s);
    }
}

proof fn lemma_dedup_unique(s: Seq<Seq<char>>)
    ensures
        dedup_spec(dedup_spec(s)) == dedup_spec(s),
{
    lemma_dedup_no_dups(s);
    lemma_dedup_of_no_dups(dedup_spec(s));
}

/// The package found for a name has that name.
pub proof fn lemma_first_package_name_pub(pkgs: Seq<PackageInfo>, name: Seq<char>)
    ensures
        first_package(pkgs, name) matches Some(p) ==> p.name == name,
{
    lemma_first_package_name(pkgs, name);
}

proof fn lemma_first_package_name(pkgs: Seq<PackageInfo>, name: Seq<char>)
    ensures
        first_package(pkgs, name) matches Some(p) ==> p.name == name,
    decreases pkgs.len(),
{
    if pkgs.len() > 0 && pkgs[0].name@ != name {
        lemma_first_package_name(pkgs.drop_first(), name);
    }
}

/// The packages named on an add input are listed once each, and they are
/// exactly those of the package list and of the per-package bumps.
pub proof fn law_explicit_packages_once(input: AddInput)
    ensures
        no_dups(explicit_names_spec(input)),
        forall|n: Seq<char>|
            explicit_names_spec(input).contains(n) <==> (views(input.packages@).contains(n)
                || input.package_bumps.names().contains(n)),
{
    let all = views(input.packages@) + input.package_bumps.names();
    lemma_dedup_no_dups(all);
    lemma_dedup_members(all);
    assert(explicit_names_spec(input) == dedup_spec(all));
    assert forall|n: Seq<char>|
        explicit_names_spec(input).contains(n) <==> (views(input.packages@).contains(n) || input.package_bumps.names().contains(
            n,
        )) by {
        assert(explicit_names_spec(input) == dedup_spec(all));
        assert(dedup_spec(all).contains(n) <==> all.contains(n));
        if all.contains(n) {
            let j = choose|j: int| 0 <= j < all.len() && all[j] == n;
            if j >= views(input.packages@).len() {
                assert(input.package_bumps.names()[j - views(input.packages@).len()] == n);
            }
        }
        if views(input.packages@).contains(n) {
            let j = choose|j: int| 0 <= j < views(input.packages@).len() && views(input.packages@)[j] == n;
            assert(all[j] == n);
        }
        if input.package_bumps.names().contains(n) {
            let j = choose|j: int| 0 <= j < input.package_bumps.names().len() && input.package_bumps.names()[j] == n;
            assert(all[views(input.packages@).len() + j] == n);
        }
    }
}

} // verus!

//! Managing which packages are released as pre-releases and which graduate
//! from `0.x` to `1.0.0`: from command-line input and from menus.
use vstd::prelude::*;

use crate::error::{OperationError, Result};
use crate::model::{find_package, package_index_spec, package_names, CargoProject, PackageInfo};
use crate::paths::path_join;
use crate::release_state::{valid_prerelease_tag, GraduationState, PrereleaseSpec, PrereleaseState};
use crate::text::{owned, views};
use crate::traits::{
    GraduationAction, GraduationInteractionProvider, MenuSelection, PrereleaseAction, PrereleaseInteractionProvider,
    ProjectProvider, ReleaseStateIO,
};
use crate::version::{is_prerelease, is_prerelease_spec, is_zero_version, is_zero_version_spec};

verus! {

/// What the pre-release operations report.
#[derive(Debug, Clone, PartialEq, Eq)]
pub enum PrereleaseEvent {
    /// The pre-release state: (package, tag) pairs in name order.
    DisplayState(Vec<(String, String)>),
    Added { crate_name: String, tag: String },
    Removed { crate_name: String },
    MovedToGraduation { crate_name: String },
    AllPackagesInPrerelease,
    NoPrereleasePackages,
    NoEligibleForGraduation,
}

/// What the graduation operations report.
#[derive(Debug, Clone, PartialEq, Eq)]
pub enum GraduationEvent {
    /// The graduation queue in name order.
    DisplayState(Vec<String>),
    Added { crate_name: String },
    Removed { crate_name: String },
    NoEligibleForGraduation,
    NoGraduationPackages,
}

/// The position of the first `:` in `s`.
pub open spec fn colon_index(s: Seq<char>) -> Option<int> {
    if exists|i: int| 0 <= i < s.len() && s[i] == ':' {
        Some(choose|i: int| 0 <= i < s.len() && s[i] == ':' && forall|j: int| 0 <= j < i ==> s[j] != ':')
    } else {
        None
    }
}

/// A `crate:tag` entry split at its first colon, when both parts are
/// non-empty.
pub open spec fn parse_entry_spec(s: Seq<char>) -> Option<(Seq<char>, Seq<char>)> {
    match colon_index(s) {
        Some(i) => if 0 < i && i + 1 < s.len() {
            Some((s.subrange(0, i), s.subrange(i + 1, s.len() as int)))
        } else {
            None
        },
        None => None,
    }
}

/// The package part of a parsed entry.
pub open spec fn entry_name(s: Seq<char>) -> Seq<char> {
    parse_entry_spec(s).unwrap().0
}

/// The tag part of a parsed entry.
pub open spec fn entry_tag(s: Seq<char>) -> Seq<char> {
    parse_entry_spec(s).unwrap().1
}

/// Writing a package and a tag as `crate:tag` and parsing the entry gives
/// them back, when the package name is non-empty and has no colon and the
/// tag is non-empty.
pub proof fn law_prerelease_entry_round_trip(name: Seq<char>, tag: Seq<char>)
    requires
        name.len() > 0,
        !name.contains(':'),
        tag.len() > 0,
    ensures
        parse_entry_spec(name + seq![':'] + tag) == Some((name, tag)),
{
    let s = name + seq![':'] + tag;
    let i = name.len() as int;
    assert(s[i] == ':');
    assert forall|j: int| 0 <= j < i implies s[j] != ':' by {
        assert(s[j] == name[j]);
        if name[j] == ':' {
            assert(name.contains(':'));
        }
    }
    let k = choose|k: int| 0 <= k < s.len() && s[k] == ':' && forall|j: int| 0 <= j < k ==> s[j] != ':';
    assert(colon_index(s) == Some(k));
    if k < i {
        assert(s[k] == name[k]);
        assert(name.contains(':'));
    }
    if i < k {
        assert(s[i] != ':');
    }
    assert(k == i);
    assert(s.subrange(0, i) =~= name);
    assert(s.subrange(i + 1, s.len() as int) =~= tag);
}

/// Splits a `crate:tag` entry at its first colon.
pub fn parse_prerelease_entry(input: &str) -> (r: Result<(String, String)>)
    ensures
        r is Ok <==> parse_entry_spec(input@) is Some,
        r matches Ok(p) ==> parse_entry_spec(input@) == Some((p.0@, p.1@)),
        r matches Err(e) ==> (e matches OperationError::InvalidPrereleaseFormat { input: i } && i@ == input@),
{
    let len = input.unicode_len();
    let mut i: usize = 0;
    while i < len && input.get_char(i) != ':'
        invariant
            len == input@.len(),
            i <= len,
            forall|j: int| 0 <= j < i ==> input@[j] != ':',
        decreases len - i,
    {
        i = i + 1;
    }
    proof {
        let s = input@;
        if i < len {
            assert(s[i as int] == ':');
            let k = choose|k: int| 0 <= k < s.len() && s[k] == ':' && forall|j: int| 0 <= j < k ==> s[j] != ':';
            assert(colon_index(s) == Some(k));
            if k < i {
                assert(s[k] != ':');
            }
            if i < k {
                assert(s[i as int] != ':');
            }
            assert(k == i);
        } else {
            assert(!exists|k: int| 0 <= k < s.len() && s[k] == ':');
        }
    }
    if i == len || i == 0 || i + 1 == len {
        return Err(OperationError::InvalidPrereleaseFormat { input: owned(input) });
    }
    let name = input.substring_char(0, i);
    let tag = input.substring_char(i + 1, len);
    Ok((owned(name), owned(tag)))
}

/// Accepts `tag` if it is a valid pre-release identifier.
pub fn validate_prerelease_tag(tag: &str) -> (r: Result<()>)
    ensures
        r is Ok <==> valid_prerelease_tag(tag@),
        r matches Err(e) ==> (e matches OperationError::InvalidPrereleaseTag { tag: t, .. } && t@ == tag@),
{
    match PrereleaseSpec::parse(tag) {
        Ok(_) => Ok(()),
        Err(source) => Err(OperationError::InvalidPrereleaseTag { tag: owned(tag), source }),
    }
}

/// Accepts `name` if the project has a package of that name.
pub fn validate_package_exists(project: &CargoProject, name: &str) -> (r: Result<()>)
    ensures
        r is Ok <==> package_names(project.packages@).contains(name@),
        r matches Err(e) ==> (e matches OperationError::PackageNotFound { name: n } && n@ == name@),
{
    match find_package(&project.packages, name) {
        Some(_) => Ok(()),
        None => Err(OperationError::PackageNotFound { name: owned(name) }),
    }
}

/// A package may graduate when it is a `0.x` release that is not a
/// pre-release.
pub open spec fn can_graduate_spec(pkgs: Seq<PackageInfo>, name: Seq<char>) -> bool {
    match package_index_spec(pkgs, name) {
        Some(i) => !is_prerelease_spec(pkgs[i].version@) && is_zero_version_spec(pkgs[i].version@),
        None => false,
    }
}

/// Accepts `name` if its package may graduate to `1.0.0`.
pub fn validate_can_graduate(project: &CargoProject, name: &str) -> (r: Result<()>)
    ensures
        r is Ok <==> can_graduate_spec(project.packages@, name@),
        r matches Err(e) ==> match package_index_spec(project.packages@, name@) {
            None => e matches OperationError::PackageNotFound { name: n } && n@ == name@,
            Some(i) => if is_prerelease_spec(project.packages@[i].version@) {
                e matches OperationError::CannotGraduatePrerelease { package, .. } && package@ == name@
            } else {
                e matches OperationError::CannotGraduateStable { package, .. } && package@ == name@
            },
        },
{
    let ghost pkgs = project.packages@;
    match find_package(&project.packages, name) {
        None => {
            proof {
                assert(!exists|i: int| 0 <= i < pkgs.len() && pkgs[i].name@ == name@);
            }
            Err(OperationError::PackageNotFound { name: owned(name) })
        },
        Some(i) => {
            proof {
                let k = choose|k: int|
                    0 <= k < pkgs.len() && pkgs[k].name@ == name@ && forall|j: int| 0 <= j < k ==> pkgs[j].name@ != name@;
                assert(package_index_spec(pkgs, name@) == Some(k));
                if k < i {
                    assert(pkgs[k].name@ != name@);
                }
                if i < k {
                    assert(pkgs[i as int].name@ != name@);
                }
                assert(k == i);
            }
            let package = &project.packages[i];
            if is_prerelease(&package.version) {
                Err(OperationError::CannotGraduatePrerelease { package: owned(name), version: package.version.to_string() })
            } else if !is_zero_version(&package.version) {
                Err(OperationError::CannotGraduateStable { package: owned(name), version: package.version.to_string() })
            } else {
                Ok(())
            }
        },
    }
}

/// An entry that names a package of the project and a valid tag.
pub open spec fn entry_ok(pkgs: Seq<PackageInfo>, s: Seq<char>) -> bool {
    match parse_entry_spec(s) {
        Some(p) => package_names(pkgs).contains(p.0) && valid_prerelease_tag(p.1),
        None => false,
    }
}

/// The error an invalid entry is refused with.
pub open spec fn entry_error(pkgs: Seq<PackageInfo>, s: Seq<char>, e: OperationError) -> bool {
    match parse_entry_spec(s) {
        None => e matches OperationError::InvalidPrereleaseFormat { input } && input@ == s,
        Some(p) => if !package_names(pkgs).contains(p.0) {
            e matches OperationError::PackageNotFound { name } && name@ == p.0
        } else {
            e matches OperationError::InvalidPrereleaseTag { tag, .. } && tag@ == p.1
        },
    }
}

/// The tags after recording each valid entry in turn.
pub open spec fn tags_after_entries(m: Map<Seq<char>, Seq<char>>, entries: Seq<Seq<char>>) -> Map<Seq<char>, Seq<char>>
    decreases entries.len(),
{
    if entries.len() == 0 {
        m
    } else {
        let prev = tags_after_entries(m, entries.drop_last());
        match parse_entry_spec(entries.last()) {
            Some(p) => prev.insert(p.0, p.1),
            None => prev,
        }
    }
}

/// The tags after dropping each name in turn.
pub open spec fn tags_after_removals(m: Map<Seq<char>, Seq<char>>, names: Seq<Seq<char>>) -> Map<Seq<char>, Seq<char>>
    decreases names.len(),
{
    if names.len() == 0 {
        m
    } else {
        tags_after_removals(m, names.drop_last()).remove(names.last())
    }
}

/// The names that were in the state when their turn came, in order.
pub open spec fn removed_names(m: Map<Seq<char>, Seq<char>>, names: Seq<Seq<char>>) -> Seq<Seq<char>>
    decreases names.len(),
{
    if names.len() == 0 {
        Seq::empty()
    } else {
        let prev = removed_names(m, names.drop_last());
        if tags_after_removals(m, names.drop_last()).dom().contains(names.last()) {
            prev.push(names.last())
        } else {
            prev
        }
    }
}

pub open spec fn is_added_event(e: PrereleaseEvent, name: Seq<char>, tag: Seq<char>) -> bool {
    e matches PrereleaseEvent::Added { crate_name, tag: t } && crate_name@ == name && t@ == tag
}

pub open spec fn is_removed_event(e: PrereleaseEvent, name: Seq<char>) -> bool {
    e matches PrereleaseEvent::Removed { crate_name } && crate_name@ == name
}

pub open spec fn is_moved_event(e: PrereleaseEvent, name: Seq<char>) -> bool {
    e matches PrereleaseEvent::MovedToGraduation { crate_name } && crate_name@ == name
}

/// Records each `crate:tag` entry in the pre-release state, reporting each.
/// Stops at the first entry that does not parse, names no package of the
/// project, or has an invalid tag.
pub fn apply_prerelease_additions(
    project: &CargoProject,
    state: &mut PrereleaseState,
    entries: &Vec<String>,
    events: &mut Vec<PrereleaseEvent>,
) -> (r: Result<bool>)
    requires
        old(state).wf(),
    ensures
        final(state).wf(),
        r is Ok <==> forall|i: int| 0 <= i < entries@.len() ==> entry_ok(project.packages@, #[trigger] entries@[i]@),
        r matches Err(e) ==> exists|i: int|
            0 <= i < entries@.len() && !entry_ok(project.packages@, #[trigger] entries@[i]@) && entry_error(
                project.packages@,
                entries@[i]@,
                e,
            ) && forall|j: int| 0 <= j < i ==> entry_ok(project.packages@, entries@[j]@),
        r matches Ok(modified) ==> {
            &&& modified == (entries@.len() > 0)
            &&& final(state).tags() == tags_after_entries(old(state).tags(), views(entries@))
            &&& final(events)@.len() == old(events)@.len() + entries@.len()
            &&& final(events)@.take(old(events)@.len() as int) == old(events)@
            &&& forall|i: int|
                0 <= i < entries@.len() ==> is_added_event(
                    #[trigger] final(events)@[old(events)@.len() + i],
                    entry_name(entries@[i]@),
                    entry_tag(entries@[i]@),
                )
        },
{
    let ghost start = state.tags();
    let ghost ev0 = events@;
    let mut i: usize = 0;
    while i < entries.len()
        invariant
            i <= entries.len(),
            state.wf(),
            forall|j: int| 0 <= j < i ==> entry_ok(project.packages@, #[trigger] entries@[j]@),
            state.tags() == tags_after_entries(start, views(entries@).take(i as int)),
            events@.len() == ev0.len() + i,
            events@.take(ev0.len() as int) == ev0,
            forall|j: int|
                0 <= j < i ==> is_added_event(
                    #[trigger] events@[ev0.len() + j],
                    entry_name(entries@[j]@),
                    entry_tag(entries@[j]@),
                ),
        decreases entries.len() - i,
    {
        let (crate_name, tag) = match parse_prerelease_entry(entries[i].as_str()) {
            Ok(p) => p,
            Err(e) => {
                proof {
                    assert(!entry_ok(project.packages@, entries@[i as int]@));
                }
                return Err(e);
            },
        };
        match validate_package_exists(project, crate_name.as_str()) {
            Ok(()) => {},
            Err(e) => {
                proof {
                    assert(!entry_ok(project.packages@, entries@[i as int]@));
                }
                return Err(e);
            },
        }
        match validate_prerelease_tag(tag.as_str()) {
            Ok(()) => {},
            Err(e) => {
                proof {
                    assert(!entry_ok(project.packages@, entries@[i as int]@));
                }
                return Err(e);
            },
        }
        let ghost before = state.tags();
        let ghost evb = events@;
        state.insert(crate_name.clone(), tag.clone());
        events.push(PrereleaseEvent::Added { crate_name, tag });
        proof {
            assert(state.tags() =~= before.insert(entry_name(entries@[i as int]@), entry_tag(entries@[i as int]@)));
            assert(views(entries@).take(i + 1).drop_last() =~= views(entries@).take(i as int));
            assert(events@.take(ev0.len() as int) =~= evb.take(ev0.len() as int));
            assert forall|j: int|
                0 <= j < i + 1 implies is_added_event(
                    #[trigger] events@[ev0.len() + j],
                    entry_name(entries@[j]@),
                    entry_tag(entries@[j]@),
                ) by {
                if j < i {
                    assert(events@[ev0.len() + j] == evb[ev0.len() + j]);
                }
            }
        }
        i = i + 1;
    }
    proof {
        assert(views(entries@).take(entries@.len() as int) =~= views(entries@));
    }
    Ok(entries.len() > 0)
}

/// Drops each named package from the pre-release state, reporting the
/// ones that were there.
pub fn apply_prerelease_removals(state: &mut PrereleaseState, names: &Vec<String>, events: &mut Vec<PrereleaseEvent>) -> (modified: bool)
    requires
        old(state).wf(),
    ensures
        final(state).wf(),
        final(state).tags() == tags_after_removals(old(state).tags(), views(names@)),
        modified == (removed_names(old(state).tags(), views(names@)).len() > 0),
        final(events)@.len() == old(events)@.len() + removed_names(old(state).tags(), views(names@)).len(),
        final(events)@.take(old(events)@.len() as int) == old(events)@,
        forall|i: int|
            0 <= i < removed_names(old(state).tags(), views(names@)).len() ==> is_removed_event(
                #[trigger] final(events)@[old(events)@.len() + i],
                removed_names(old(state).tags(), views(names@))[i],
            ),
{
    let ghost start = state.tags();
    let ghost ev0 = events@;
    let mut modified = false;
    let mut i: usize = 0;
    while i < names.len()
        invariant
            i <= names.len(),
            state.wf(),
            state.tags() == tags_after_removals(start, views(names@).take(i as int)),
            modified == (removed_names(start, views(names@).take(i as int)).len() > 0),
            events@.len() == ev0.len() + removed_names(start, views(names@).take(i as int)).len(),
            events@.take(ev0.len() as int) == ev0,
            forall|j: int|
                0 <= j < removed_names(start, views(names@).take(i as int)).len() ==> is_removed_event(
                    #[trigger] events@[ev0.len() + j],
                    removed_names(start, views(names@).take(i as int))[j],
                ),
        decreases names.len() - i,
    {
        let ghost before = state.tags();
        let ghost evb = events@;
        let ghost prev_removed = removed_names(start, views(names@).take(i as int));
        proof {
            assert(views(names@).take(i + 1).drop_last() =~= views(names@).take(i as int));
            assert(views(names@).take(i + 1).last() == names@[i as int]@);
        }
        let removed = state.remove(names[i].as_str());
        proof {
            assert(state.tags() =~= before.remove(names@[i as int]@));
        }
        if removed.is_some() {
            events.push(PrereleaseEvent::Removed { crate_name: names[i].clone() });
            modified = true;
            proof {
                assert(before.dom().contains(names@[i as int]@));
                let nr = removed_names(start, views(names@).take(i + 1));
                assert(nr == prev_removed.push(names@[i as int]@));
                assert(events@.take(ev0.len() as int) =~= evb.take(ev0.len() as int));
                assert forall|j: int| 0 <= j < nr.len() implies is_removed_event(#[trigger] events@[ev0.len() + j], nr[j]) by {
                    if j < prev_removed.len() {
                        assert(events@[ev0.len() + j] == evb[ev0.len() + j]);
                    }
                }
            }
        } else {
            proof {
                assert(!before.dom().contains(names@[i as int]@));
                assert(removed_names(start, views(names@).take(i + 1)) == prev_removed);
            }
        }
        i = i + 1;
    }
    proof {
        assert(views(names@).take(names@.len() as int) =~= views(names@));
    }
    modified
}

/// Accepts `names` if each is a package of the project that may graduate;
/// refuses the first that is not.
pub fn validate_all_can_graduate(project: &CargoProject, names: &Vec<String>) -> (r: Result<()>)
    ensures
        r is Ok <==> forall|i: int| 0 <= i < names@.len() ==> can_graduate_spec(project.packages@, #[trigger] names@[i]@),
        r matches Err(e) ==> exists|i: int|
            0 <= i < names@.len() && !can_graduate_spec(project.packages@, #[trigger] names@[i]@) && (
            e matches OperationError::PackageNotFound { .. } || e matches OperationError::CannotGraduatePrerelease { .. }
                || e matches OperationError::CannotGraduateStable { .. }) && forall|j: int|
                0 <= j < i ==> can_graduate_spec(project.packages@, names@[j]@),
{
    let mut i: usize = 0;
    while i < names.len()
        invariant
            i <= names.len(),
            forall|j: int| 0 <= j < i ==> can_graduate_spec(project.packages@, #[trigger] names@[j]@),
        decreases names.len() - i,
    {
        let name = &names[i];
        match validate_package_exists(project, name.as_str()) {
            Ok(()) => {},
            Err(e) => {
                proof {
                    let pkgs = project.packages@;
                    assert forall|k: int| 0 <= k < pkgs.len() implies pkgs[k].name@ != name@ by {
                        if pkgs[k].name@ == name@ {
                            assert(package_names(pkgs)[k] == name@);
                        }
                    }
                }
                return Err(e);
            },
        }
        match validate_can_graduate(project, name.as_str()) {
            Ok(()) => {},
            Err(e) => {
                return Err(e);
            },
        }
        i = i + 1;
    }
    Ok(())
}

/// Moves each named package to the graduation queue, taking it out of
/// pre-release. Stops at the first name that is not a package of the
/// project or cannot graduate.
pub fn apply_graduations(
    project: &CargoProject,
    prerelease: &mut PrereleaseState,
    graduation: &mut GraduationState,
    names: &Vec<String>,
    events: &mut Vec<PrereleaseEvent>,
) -> (r: Result<(bool, bool)>)
    requires
        old(prerelease).wf(),
        old(graduation).wf(),
    ensures
        final(prerelease).wf(),
        final(graduation).wf(),
        r is Ok <==> forall|i: int| 0 <= i < names@.len() ==> can_graduate_spec(project.packages@, #[trigger] names@[i]@),
        r matches Err(e) ==> exists|i: int|
            0 <= i < names@.len() && !can_graduate_spec(project.packages@, #[trigger] names@[i]@) && (
            e matches OperationError::PackageNotFound { .. } || e matches OperationError::CannotGraduatePrerelease { .. }
                || e matches OperationError::CannotGraduateStable { .. }) && forall|j: int|
                0 <= j < i ==> can_graduate_spec(project.packages@, names@[j]@),
        r matches Ok(flags) ==> {
            &&& flags.0 == (removed_names(old(prerelease).tags(), views(names@)).len() > 0)
            &&& flags.1 == (names@.len() > 0)
            &&& final(prerelease).tags() == tags_after_removals(old(prerelease).tags(), views(names@))
            &&& forall|k: Seq<char>|
                final(graduation).members().contains(k) <==> (old(graduation).members().contains(k) || views(
                    names@,
                ).contains(k))
            &&& final(events)@.len() == old(events)@.len() + names@.len()
            &&& final(events)@.take(old(events)@.len() as int) == old(events)@
            &&& forall|i: int| 0 <= i < names@.len() ==> is_moved_event(#[trigger] final(events)@[old(events)@.len() + i], names@[i]@)
        },
{
    validate_all_can_graduate(project, names)?;
    let mut dropped: Vec<PrereleaseEvent> = Vec::new();
    let modified_prerelease = apply_prerelease_removals(prerelease, names, &mut dropped);
    let ghost ev0 = events@;
    let ghost grad0 = graduation.members();
    let mut i: usize = 0;
    while i < names.len()
        invariant
            i <= names.len(),
            graduation.wf(),
            forall|k: Seq<char>|
                #[trigger] graduation.members().contains(k) <==> (grad0.contains(k) || views(names@).take(i as int).contains(k)),
            events@.len() == ev0.len() + i,
            events@.take(ev0.len() as int) == ev0,
            forall|j: int| 0 <= j < i ==> is_moved_event(#[trigger] events@[ev0.len() + j], names@[j]@),
        decreases names.len() - i,
    {
        let ghost evb = events@;
        let ghost gb = graduation.members();
        graduation.add(names[i].clone());
        events.push(PrereleaseEvent::MovedToGraduation { crate_name: names[i].clone() });
        proof {
            let t0 = views(names@).take(i as int);
            assert(views(names@).take(i + 1) =~= t0.push(names@[i as int]@));
            crate::text::lemma_contains_push(t0, names@[i as int]@);
            assert forall|k: Seq<char>|
                graduation.members().contains(k) <==> (grad0.contains(k) || views(names@).take(i + 1).contains(k)) by {
                assert(graduation.members().contains(k) <==> (gb.contains(k) || k == names@[i as int]@));
                assert(gb.contains(k) <==> (grad0.contains(k) || t0.contains(k)));
                assert(t0.push(names@[i as int]@).contains(k) <==> (t0.contains(k) || k == names@[i as int]@));
            }
            assert(events@.take(ev0.len() as int) =~= evb.take(ev0.len() as int));
            assert forall|j: int| 0 <= j < i + 1 implies is_moved_event(#[trigger] events@[ev0.len() + j], names@[j]@) by {
                if j < i {
                    assert(events@[ev0.len() + j] == evb[ev0.len() + j]);
                }
            }
        }
        i = i + 1;
    }
    proof {
        assert(views(names@).take(names@.len() as int) =~= views(names@));
    }
    Ok((modified_prerelease, names.len() > 0))
}

/// The queue after dropping each name in turn.
pub open spec fn queue_after_removals(q: Set<Seq<char>>, names: Seq<Seq<char>>) -> Set<Seq<char>>
    decreases names.len(),
{
    if names.len() == 0 {
        q
    } else {
        queue_after_removals(q, names.drop_last()).remove(names.last())
    }
}

/// The names that were queued when their turn came, in order.
pub open spec fn dequeued_names(q: Set<Seq<char>>, names: Seq<Seq<char>>) -> Seq<Seq<char>>
    decreases names.len(),
{
    if names.len() == 0 {
        Seq::empty()
    } else {
        let prev = dequeued_names(q, names.drop_last());
        if queue_after_removals(q, names.drop_last()).contains(names.last()) {
            prev.push(names.last())
        } else {
            prev
        }
    }
}

pub open spec fn is_graduation_added(e: GraduationEvent, name: Seq<char>) -> bool {
    e matches GraduationEvent::Added { crate_name } && crate_name@ == name
}

pub open spec fn is_graduation_removed(e: GraduationEvent, name: Seq<char>) -> bool {
    e matches GraduationEvent::Removed { crate_name } && crate_name@ == name
}

/// Queues each named package for graduation, reporting each. Stops at the
/// first name that is not a package of the project or cannot graduate.
pub fn apply_graduation_additions(
    project: &CargoProject,
    state: &mut GraduationState,
    names: &Vec<String>,
    events: &mut Vec<GraduationEvent>,
) -> (r: Result<bool>)
    requires
        old(state).wf(),
    ensures
        final(state).wf(),
        r is Ok <==> forall|i: int| 0 <= i < names@.len() ==> can_graduate_spec(project.packages@, #[trigger] names@[i]@),
        r matches Err(e) ==> exists|i: int|
            0 <= i < names@.len() && !can_graduate_spec(project.packages@, #[trigger] names@[i]@) && (
            e matches OperationError::PackageNotFound { .. } || e matches OperationError::CannotGraduatePrerelease { .. }
                || e matches OperationError::CannotGraduateStable { .. }) && forall|j: int|
                0 <= j < i ==> can_graduate_spec(project.packages@, names@[j]@),
        r matches Ok(modified) ==> {
            &&& modified == (names@.len() > 0)
            &&& forall|k: Seq<char>|
                #[trigger] final(state).members().contains(k) <==> (old(state).members().contains(k) || views(names@).contains(k))
            &&& final(events)@.len() == old(events)@.len() + names@.len()
            &&& final(events)@.take(old(events)@.len() as int) == old(events)@
            &&& forall|i: int| 0 <= i < names@.len() ==> is_graduation_added(#[trigger] final(events)@[old(events)@.len() + i], names@[i]@)
        },
{
    validate_all_can_graduate(project, names)?;
    let ghost q0 = state.members();
    let ghost ev0 = events@;
    let mut i: usize = 0;
    while i < names.len()
        invariant
            i <= names.len(),
            state.wf(),
            forall|k: Seq<char>|
                #[trigger] state.members().contains(k) <==> (q0.contains(k) || views(names@).take(i as int).contains(k)),
            events@.len() == ev0.len() + i,
            events@.take(ev0.len() as int) == ev0,
            forall|j: int| 0 <= j < i ==> is_graduation_added(#[trigger] events@[ev0.len() + j], names@[j]@),
        decreases names.len() - i,
    {
        let name = &names[i];
        let ghost evb = events@;
        let ghost qb = state.members();
        state.add(name.clone());
        events.push(GraduationEvent::Added { crate_name: name.clone() });
        proof {
            let t0 = views(names@).take(i as int);
            assert(views(names@).take(i + 1) =~= t0.push(names@[i as int]@));
            crate::text::lemma_contains_push(t0, names@[i as int]@);
            assert forall|k: Seq<char>|
                #[trigger] state.members().contains(k) <==> (q0.contains(k) || views(names@).take(i + 1).contains(k)) by {
                assert(qb.contains(k) <==> (q0.contains(k) || t0.contains(k)));
            }
            assert(events@.take(ev0.len() as int) =~= evb.take(ev0.len() as int));
            assert forall|j: int| 0 <= j < i + 1 implies is_graduation_added(#[trigger] events@[ev0.len() + j], names@[j]@) by {
                if j < i {
                    assert(events@[ev0.len() + j] == evb[ev0.len() + j]);
                }
            }
        }
        i = i + 1;
    }
    proof {
        assert(views(names@).take(names@.len() as int) =~= views(names@));
    }
    Ok(names.len() > 0)
}

/// Drops each named package from the graduation queue, reporting the ones
/// that were queued.
pub fn apply_graduation_removals(state: &mut GraduationState, names: &Vec<String>, events: &mut Vec<GraduationEvent>) -> (modified: bool)
    requires
        old(state).wf(),
    ensures
        final(state).wf(),
        final(state).members().to_set() == queue_after_removals(old(state).members().to_set(), views(names@)),
        modified == (dequeued_names(old(state).members().to_set(), views(names@)).len() > 0),
        final(events)@.len() == old(events)@.len() + dequeued_names(old(state).members().to_set(), views(names@)).len(),
        final(events)@.take(old(events)@.len() as int) == old(events)@,
        forall|i: int|
            0 <= i < dequeued_names(old(state).members().to_set(), views(names@)).len() ==> is_graduation_removed(
                #[trigger] final(events)@[old(events)@.len() + i],
                dequeued_names(old(state).members().to_set(), views(names@))[i],
            ),
{
    let ghost q0 = state.members().to_set();
    let ghost ev0 = events@;
    let mut modified = false;
    let mut i: usize = 0;
    while i < names.len()
        invariant
            i <= names.len(),
            state.wf(),
            state.members().to_set() == queue_after_removals(q0, views(names@).take(i as int)),
            modified == (dequeued_names(q0, views(names@).take(i as int)).len() > 0),
            events@.len() == ev0.len() + dequeued_names(q0, views(names@).take(i as int)).len(),
            events@.take(ev0.len() as int) == ev0,
            forall|j: int|
                0 <= j < dequeued_names(q0, views(names@).take(i as int)).len() ==> is_graduation_removed(
                    #[trigger] events@[ev0.len() + j],
                    dequeued_names(q0, views(names@).take(i as int))[j],
                ),
        decreases names.len() - i,
    {
        let ghost before = state.members();
        let ghost evb = events@;
        let ghost prev = dequeued_names(q0, views(names@).take(i as int));
        proof {
            assert(views(names@).take(i + 1).drop_last() =~= views(names@).take(i as int));
            assert(views(names@).take(i + 1).last() == names@[i as int]@);
        }
        let was_queued = state.remove(names[i].as_str());
        proof {
            assert(state.members().to_set() =~= before.to_set().remove(names@[i as int]@));
            assert(was_queued == before.to_set().contains(names@[i as int]@));
        }
        if was_queued {
            events.push(GraduationEvent::Removed { crate_name: names[i].clone() });
            modified = true;
            proof {
                let nr = dequeued_names(q0, views(names@).take(i + 1));
                assert(nr == prev.push(names@[i as int]@));
                assert(events@.take(ev0.len() as int) =~= evb.take(ev0.len() as int));
                assert forall|j: int| 0 <= j < nr.len() implies is_graduation_removed(#[trigger] events@[ev0.len() + j], nr[j]) by {
                    if j < prev.len() {
                        assert(events@[ev0.len() + j] == evb[ev0.len() + j]);
                    }
                }
            }
        }
        i = i + 1;
    }
    proof {
        assert(views(names@).take(names@.len() as int) =~= views(names@));
    }
    modified
}

/// The `--add crate:tag`, `--remove` and `--graduate` lists of the
/// pre-release command, and whether to list the state afterwards.
pub struct PrereleaseDirectInput {
    pub add: Vec<String>,
    pub remove: Vec<String>,
    pub graduate: Vec<String>,
    pub list: bool,
}

impl PrereleaseDirectInput {
    pub fn new(add: Vec<String>, remove: Vec<String>, graduate: Vec<String>, list: bool) -> (r: Self)
        ensures
            r.add == add,
            r.remove == remove,
            r.graduate == graduate,
            r.list == list,
    {
        PrereleaseDirectInput { add, remove, graduate, list }
    }
}

/// The `--add` and `--remove` lists of the graduation command, and
/// whether to list the queue afterwards.
pub struct GraduationDirectInput {
    pub add: Vec<String>,
    pub remove: Vec<String>,
    pub list: bool,
}

impl GraduationDirectInput {
    pub fn new(add: Vec<String>, remove: Vec<String>, list: bool) -> (r: Self)
        ensures
            r.add == add,
            r.remove == remove,
            r.list == list,
    {
        GraduationDirectInput { add, remove, list }
    }
}

/// The first `crate:tag` entry that is refused, and the error it gives.
pub open spec fn first_bad_entry(pkgs: Seq<PackageInfo>, entries: Seq<Seq<char>>, e: OperationError) -> bool {
    exists|i: int|
        0 <= i < entries.len() && !entry_ok(pkgs, #[trigger] entries[i]) && entry_error(pkgs, entries[i], e) && forall|
            j: int,
        |
            0 <= j < i ==> entry_ok(pkgs, entries[j])
}

/// The first name that cannot graduate, and an error of the kinds that
/// refusal gives.
pub open spec fn first_bad_graduation(pkgs: Seq<PackageInfo>, names: Seq<Seq<char>>, e: OperationError) -> bool {
    exists|i: int|
        0 <= i < names.len() && !can_graduate_spec(pkgs, #[trigger] names[i]) && (
        e matches OperationError::PackageNotFound { .. } || e matches OperationError::CannotGraduatePrerelease { .. }
            || e matches OperationError::CannotGraduateStable { .. }) && forall|j: int|
            0 <= j < i ==> can_graduate_spec(pkgs, names[j])
}

/// What the pre-release command changes: the events to report, the new
/// states, and which of them must be saved.
pub struct PrereleaseChanges {
    pub events: Vec<PrereleaseEvent>,
    pub prerelease: PrereleaseState,
    pub graduation: GraduationState,
    pub save_prerelease: bool,
    pub save_graduation: bool,
}

/// Applies the pre-release command to the loaded states: first the
/// additions, then the removals, then the graduations, reporting each;
/// with `list`, the final state comes last. A state is to be saved only if
/// it changed. Refuses the first entry that does not parse, names no
/// package or has an invalid tag, then the first package that cannot
/// graduate.
pub fn plan_prerelease_changes(
    project: &CargoProject,
    prerelease: PrereleaseState,
    graduation: GraduationState,
    input: &PrereleaseDirectInput,
) -> (r: Result<PrereleaseChanges>)
    requires
        prerelease.wf(),
        graduation.wf(),
    ensures
        r is Ok <==> prerelease_input_valid(project.packages@, *input),
        r matches Err(e) ==> first_bad_entry(project.packages@, views(input.add@), e) || ((forall|i: int|
            0 <= i < input.add@.len() ==> entry_ok(project.packages@, #[trigger] input.add@[i]@)) && first_bad_graduation(
            project.packages@,
            views(input.graduate@),
            e,
        )),
        r matches Ok(c) ==> {
            let added = tags_after_entries(prerelease.tags(), views(input.add@));
            let dropped = removed_names(added, views(input.remove@));
            let after_remove = tags_after_removals(added, views(input.remove@));
            let n_add = input.add@.len();
            let n_grad = input.graduate@.len();
            &&& c.prerelease.wf()
            &&& c.graduation.wf()
            &&& c.prerelease.tags() == tags_after_removals(after_remove, views(input.graduate@))
            &&& forall|k: Seq<char>|
                c.graduation.members().contains(k) <==> (graduation.members().contains(k) || views(
                    input.graduate@,
                ).contains(k))
            &&& c.save_prerelease == (n_add > 0 || dropped.len() > 0 || removed_names(
                after_remove,
                views(input.graduate@),
            ).len() > 0)
            &&& c.save_graduation == (n_grad > 0)
            &&& c.events@.len() == n_add + dropped.len() + n_grad + if input.list {
                1int
            } else {
                0int
            }
            &&& forall|i: int|
                0 <= i < n_add ==> is_added_event(
                    #[trigger] c.events@[i],
                    entry_name(input.add@[i]@),
                    entry_tag(input.add@[i]@),
                )
            &&& forall|i: int| 0 <= i < dropped.len() ==> is_removed_event(#[trigger] c.events@[n_add + i], dropped[i])
            &&& forall|i: int|
                0 <= i < n_grad ==> is_moved_event(#[trigger] c.events@[n_add + dropped.len() + i], input.graduate@[i]@)
            &&& input.list ==> c.events@.last() is DisplayState
        },
{
    let mut prerelease = prerelease;
    let mut graduation = graduation;
    let ghost t0 = prerelease.tags();
    let ghost g0 = graduation.members();
    let mut events: Vec<PrereleaseEvent> = Vec::new();
    let added = match apply_prerelease_additions(project, &mut prerelease, &input.add, &mut events) {
        Ok(a) => a,
        Err(e) => {
            proof {
                assert(!prerelease_input_valid(project.packages@, *input)) by {
                    let i = choose|i: int|
                        0 <= i < input.add@.len() && !entry_ok(project.packages@, #[trigger] input.add@[i]@);
                }
                let i = choose|i: int|
                    0 <= i < input.add@.len() && !entry_ok(project.packages@, #[trigger] input.add@[i]@) && entry_error(
                        project.packages@,
                        input.add@[i]@,
                        e,
                    ) && forall|j: int| 0 <= j < i ==> entry_ok(project.packages@, input.add@[j]@);
                assert(views(input.add@)[i] == input.add@[i]@);
                assert forall|j: int| 0 <= j < i implies entry_ok(project.packages@, views(input.add@)[j]) by {
                    assert(views(input.add@)[j] == input.add@[j]@);
                }
                assert(first_bad_entry(project.packages@, views(input.add@), e));
            }
            return Err(e);
        },
    };
    let ghost ev1 = events@;
    let ghost t1 = prerelease.tags();
    let removed = apply_prerelease_removals(&mut prerelease, &input.remove, &mut events);
    let ghost ev2 = events@;
    let ghost t2 = prerelease.tags();
    let (graduated_from_prerelease, graduated) = match apply_graduations(
        project,
        &mut prerelease,
        &mut graduation,
        &input.graduate,
        &mut events,
    ) {
        Ok(f) => f,
        Err(e) => {
            proof {
                let pkgs = project.packages@;
                let i = choose|i: int|
                    0 <= i < input.graduate@.len() && !can_graduate_spec(pkgs, #[trigger] input.graduate@[i]@) && (
                    e matches OperationError::PackageNotFound { .. } || e matches OperationError::CannotGraduatePrerelease {
                        ..
                    } || e matches OperationError::CannotGraduateStable { .. }) && forall|j: int|
                        0 <= j < i ==> can_graduate_spec(pkgs, input.graduate@[j]@);
                assert(views(input.graduate@)[i] == input.graduate@[i]@);
                assert forall|j: int| 0 <= j < i implies can_graduate_spec(pkgs, views(input.graduate@)[j]) by {
                    assert(views(input.graduate@)[j] == input.graduate@[j]@);
                }
                assert(first_bad_graduation(pkgs, views(input.graduate@), e));
                assert(!can_graduate_spec(pkgs, input.graduate@[i]@));
            }
            return Err(e);
        },
    };
    let ghost ev3 = events@;
    if input.list {
        events.push(PrereleaseEvent::DisplayState(prerelease.entries()));
    }
    proof {
        let n_add = input.add@.len() as int;
        let dropped = removed_names(t1, views(input.remove@));
        assert forall|i: int| 0 <= i < n_add implies is_added_event(
            #[trigger] events@[i],
            entry_name(input.add@[i]@),
            entry_tag(input.add@[i]@),
        ) by {
            assert(events@[i] == ev3[i]);
            assert(ev3[i] == ev2[i]) by {
                assert(ev3.take(ev2.len() as int)[i] == ev2[i]);
            }
            assert(ev2[i] == ev1[i]) by {
                assert(ev2.take(ev1.len() as int)[i] == ev1[i]);
            }
            assert(ev1[0 + i] == ev1[i]);
        }
        assert forall|i: int| 0 <= i < dropped.len() implies is_removed_event(#[trigger] events@[n_add + i], dropped[i]) by {
            assert(events@[n_add + i] == ev3[n_add + i]);
            assert(ev3.take(ev2.len() as int)[n_add + i] == ev2[n_add + i]);
        }
        assert forall|i: int|
            0 <= i < input.graduate@.len() implies is_moved_event(
            #[trigger] events@[n_add + dropped.len() + i],
            input.graduate@[i]@,
        ) by {
            assert(events@[n_add + dropped.len() + i] == ev3[n_add + dropped.len() + i]);
        }
        assert forall|i: int| 0 <= i < input.add@.len() implies entry_ok(project.packages@, #[trigger] input.add@[i]@) by {}
    }
    Ok(
        PrereleaseChanges {
            events,
            prerelease,
            graduation,
            save_prerelease: added || removed || graduated_from_prerelease,
            save_graduation: graduated,
        },
    )
}

/// What the graduation command changes: the events to report, the new
/// queue, and whether it must be saved.
pub struct GraduationChanges {
    pub events: Vec<GraduationEvent>,
    pub state: GraduationState,
    pub save: bool,
}

/// Applies the graduation command to the loaded queue: first the
/// additions, then the removals, reporting each; with `list`, the final
/// queue comes last. The queue is to be saved only if it changed. Refuses
/// the first package to add that cannot graduate.
pub fn plan_graduation_changes(
    project: &CargoProject,
    state: GraduationState,
    input: &GraduationDirectInput,
) -> (r: Result<GraduationChanges>)
    requires
        state.wf(),
    ensures
        r is Ok <==> graduation_input_valid(project.packages@, *input),
        r matches Err(e) ==> first_bad_graduation(project.packages@, views(input.add@), e),
        r matches Ok(c) ==> {
            let n_add = input.add@.len();
            let after_add = state.members().to_set().union(views(input.add@).to_set());
            let dequeued = dequeued_names(after_add, views(input.remove@));
            &&& c.state.wf()
            &&& c.state.members().to_set() == queue_after_removals(after_add, views(input.remove@))
            &&& c.save == (n_add > 0 || dequeued.len() > 0)
            &&& c.events@.len() == n_add + dequeued.len() + if input.list {
                1int
            } else {
                0int
            }
            &&& forall|i: int| 0 <= i < n_add ==> is_graduation_added(#[trigger] c.events@[i], input.add@[i]@)
            &&& forall|i: int| 0 <= i < dequeued.len() ==> is_graduation_removed(#[trigger] c.events@[n_add + i], dequeued[i])
            &&& input.list ==> c.events@.last() is DisplayState
        },
{
    let mut state = state;
    let ghost q0 = state.members();
    let mut events: Vec<GraduationEvent> = Vec::new();
    let added = match apply_graduation_additions(project, &mut state, &input.add, &mut events) {
        Ok(a) => a,
        Err(e) => {
            proof {
                let pkgs = project.packages@;
                let i = choose|i: int|
                    0 <= i < input.add@.len() && !can_graduate_spec(pkgs, #[trigger] input.add@[i]@) && (
                    e matches OperationError::PackageNotFound { .. } || e matches OperationError::CannotGraduatePrerelease {
                        ..
                    } || e matches OperationError::CannotGraduateStable { .. }) && forall|j: int|
                        0 <= j < i ==> can_graduate_spec(pkgs, input.add@[j]@);
                assert(views(input.add@)[i] == input.add@[i]@);
                assert forall|j: int| 0 <= j < i implies can_graduate_spec(pkgs, views(input.add@)[j]) by {
                    assert(views(input.add@)[j] == input.add@[j]@);
                }
                assert(first_bad_graduation(pkgs, views(input.add@), e));
            }
            return Err(e);
        },
    };
    let ghost ev1 = events@;
    proof {
        assert(state.members().to_set() =~= q0.to_set().union(views(input.add@).to_set())) by {
            assert forall|k: Seq<char>| state.members().to_set().contains(k) <==> q0.to_set().union(
                views(input.add@).to_set(),
            ).contains(k) by {
                assert(state.members().contains(k) <==> (q0.contains(k) || views(input.add@).contains(k)));
            }
        }
    }
    let removed = apply_graduation_removals(&mut state, &input.remove, &mut events);
    let ghost ev2 = events@;
    if input.list {
        events.push(GraduationEvent::DisplayState(state.names()));
    }
    proof {
        let n_add = input.add@.len() as int;
        assert forall|i: int| 0 <= i < n_add implies is_graduation_added(#[trigger] events@[i], input.add@[i]@) by {
            assert(events@[i] == ev2[i]);
            assert(ev2.take(ev1.len() as int)[i] == ev1[i]);
            assert(ev1[0 + i] == ev1[i]);
        }
        let dq = dequeued_names(q0.to_set().union(views(input.add@).to_set()), views(input.remove@));
        assert forall|i: int| 0 <= i < dq.len() implies is_graduation_removed(#[trigger] events@[n_add + i], dq[i]) by {
            assert(events@[n_add + i] == ev2[n_add + i]);
        }
    }
    Ok(GraduationChanges { events, state, save: added || removed })
}

/// Loads the pre-release state of a changeset directory, empty if none.
fn load_prerelease<S: ReleaseStateIO>(io: &S, changeset_dir: &str) -> (r: Result<PrereleaseState>)
    ensures
        r matches Ok(s) ==> s.wf(),
{
    match io.load_prerelease_state(changeset_dir)? {
        Some(s) => Ok(s.into_valid()),
        None => Ok(PrereleaseState::new()),
    }
}

/// Loads the graduation queue of a changeset directory, empty if none.
fn load_graduation<S: ReleaseStateIO>(io: &S, changeset_dir: &str) -> (r: Result<GraduationState>)
    ensures
        r matches Ok(s) ==> s.wf(),
{
    match io.load_graduation_state(changeset_dir)? {
        Some(s) => Ok(s.into_valid()),
        None => Ok(GraduationState::new()),
    }
}

/// Changes the pre-release state from command-line input.
pub struct PrereleaseDirectOperation<P, S> {
    project_provider: P,
    release_state_io: S,
}

impl<P: ProjectProvider, S: ReleaseStateIO> PrereleaseDirectOperation<P, S> {
    /// The project provider and the state store the operation works with.
    pub closed spec fn parts(&self) -> (P, S) {
        (self.project_provider, self.release_state_io)
    }

    pub fn new(project_provider: P, release_state_io: S) -> (r: Self)
        ensures
            r.parts() == (project_provider, release_state_io),
    {
        PrereleaseDirectOperation { project_provider, release_state_io }
    }

    /// Records the additions, removals and graduations of `input` in the
    /// project's state files and reports each; with `list`, the final
    /// state comes last. A state file is written only if it changed.
    pub fn execute(&self, start_path: &str, input: &PrereleaseDirectInput) -> (r: Result<Vec<PrereleaseEvent>>)
        ensures
            r matches Ok(ev) ==> ev@.len() >= input.add@.len() + input.graduate@.len() + if input.list {
                1int
            } else {
                0int
            },
            r matches Ok(ev) ==> (input.list ==> ev@.last() is DisplayState),
            r is Ok ==> exists|pkgs: Seq<PackageInfo>| #[trigger] prerelease_input_valid(pkgs, *input),
    {
        let project = self.project_provider.discover_project(start_path)?;
        let (root_config, _) = self.project_provider.load_configs(&project)?;
        let changeset_dir = path_join(project.root.as_str(), root_config.changeset_dir.as_str());
        let prerelease_state = load_prerelease(&self.release_state_io, changeset_dir.as_str())?;
        let graduation_state = load_graduation(&self.release_state_io, changeset_dir.as_str())?;
        let changes = plan_prerelease_changes(&project, prerelease_state, graduation_state, input)?;
        if changes.save_prerelease {
            self.release_state_io.save_prerelease_state(changeset_dir.as_str(), &changes.prerelease)?;
        }
        if changes.save_graduation {
            self.release_state_io.save_graduation_state(changeset_dir.as_str(), &changes.graduation)?;
        }
        proof {
            assert(prerelease_input_valid(project.packages@, *input));
        }
        Ok(changes.events)
    }
}

/// Every entry to add is a known package with a valid tag, and every
/// package to graduate may graduate.
pub open spec fn prerelease_input_valid(pkgs: Seq<PackageInfo>, input: PrereleaseDirectInput) -> bool {
    &&& forall|i: int| 0 <= i < input.add@.len() ==> entry_ok(pkgs, #[trigger] input.add@[i]@)
    &&& forall|i: int| 0 <= i < input.graduate@.len() ==> can_graduate_spec(pkgs, #[trigger] input.graduate@[i]@)
}

/// Every package to queue may graduate.
pub open spec fn graduation_input_valid(pkgs: Seq<PackageInfo>, input: GraduationDirectInput) -> bool {
    forall|i: int| 0 <= i < input.add@.len() ==> can_graduate_spec(pkgs, #[trigger] input.add@[i]@)
}

/// Changes the graduation queue from command-line input.
pub struct GraduationDirectOperation<P, S> {
    project_provider: P,
    release_state_io: S,
}

impl<P: ProjectProvider, S: ReleaseStateIO> GraduationDirectOperation<P, S> {
    /// The project provider and the state store the operation works with.
    pub closed spec fn parts(&self) -> (P, S) {
        (self.project_provider, self.release_state_io)
    }

    pub fn new(project_provider: P, release_state_io: S) -> (r: Self)
        ensures
            r.parts() == (project_provider, release_state_io),
    {
        GraduationDirectOperation { project_provider, release_state_io }
    }

    /// Records the additions and removals of `input` in the graduation
    /// queue and reports each; with `list`, the final queue comes last. The
    /// queue file is written only if it changed.
    pub fn execute(&self, start_path: &str, input: &GraduationDirectInput) -> (r: Result<Vec<GraduationEvent>>)
        ensures
            r matches Ok(ev) ==> ev@.len() >= input.add@.len() + if input.list {
                1int
            } else {
                0int
            },
            r matches Ok(ev) ==> (input.list ==> ev@.last() is DisplayState),
            r is Ok ==> exists|pkgs: Seq<PackageInfo>| #[trigger] graduation_input_valid(pkgs, *input),
    {
        let project = self.project_provider.discover_project(start_path)?;
        let (root_config, _) = self.project_provider.load_configs(&project)?;
        let changeset_dir = path_join(project.root.as_str(), root_config.changeset_dir.as_str());
        let state = load_graduation(&self.release_state_io, changeset_dir.as_str())?;
        let changes = plan_graduation_changes(&project, state, input)?;
        if changes.save {
            self.release_state_io.save_graduation_state(changeset_dir.as_str(), &changes.state)?;
        }
        proof {
            assert(graduation_input_valid(project.packages@, *input));
        }
        Ok(changes.events)
    }
}

/// A package that may graduate: a `0.x` version that is not a pre-release.
pub open spec fn eligible_package(p: PackageInfo) -> bool {
    is_zero_version_spec(p.version@) && !is_prerelease_spec(p.version@)
}

/// Whether the project has an eligible package of this name.
pub open spec fn has_eligible(pkgs: Seq<PackageInfo>, name: Seq<char>) -> bool {
    exists|i: int| 0 <= i < pkgs.len() && #[trigger] pkgs[i].name@ == name && eligible_package(pkgs[i])
}

/// The state an interactive pre-release session works on: the project,
/// its changeset directory, and the pre-release and graduation state.
pub struct PrereleaseSession {
    project: CargoProject,
    changeset_dir: String,
    prerelease: PrereleaseState,
    graduation: GraduationState,
}

impl PrereleaseSession {
    pub closed spec fn wf(&self) -> bool {
        self.prerelease.wf() && self.graduation.wf()
    }

    /// The packages of the project.
    pub closed spec fn packages(&self) -> Seq<PackageInfo> {
        self.project.packages@
    }

    /// The pre-release tags.
    pub closed spec fn tags(&self) -> Map<Seq<char>, Seq<char>> {
        self.prerelease.tags()
    }

    /// The graduation queue.
    pub closed spec fn queue(&self) -> Set<Seq<char>> {
        self.graduation.members().to_set()
    }
}

/// The state an interactive graduation session works on.
pub struct GraduationSession {
    project: CargoProject,
    changeset_dir: String,
    state: GraduationState,
}

impl GraduationSession {
    pub closed spec fn wf(&self) -> bool {
        self.state.wf()
    }

    pub closed spec fn packages(&self) -> Seq<PackageInfo> {
        self.project.packages@
    }

    pub closed spec fn queue(&self) -> Set<Seq<char>> {
        self.state.members().to_set()
    }
}

/// The menu choice ends the session: `Done`, or backing out.
pub open spec fn ends_session(action: MenuSelection<PrereleaseAction>) -> bool {
    action is Cancelled || action == MenuSelection::Selected(PrereleaseAction::Done)
}

/// The graduation menu choice ends the session.
pub open spec fn graduation_ends(action: MenuSelection<GraduationAction>) -> bool {
    action is Cancelled || action == MenuSelection::Selected(GraduationAction::Done)
}

/// Every package of the session is already in pre-release.
pub open spec fn all_in_prerelease(o: PrereleaseSession) -> bool {
    forall|i: int| 0 <= i < o.packages().len() ==> o.tags().dom().contains(#[trigger] o.packages()[i].name@)
}

/// No package may graduate.
pub open spec fn no_eligible(pkgs: Seq<PackageInfo>) -> bool {
    forall|i: int| 0 <= i < pkgs.len() ==> !eligible_package(#[trigger] pkgs[i])
}

/// Every package that may graduate is already queued.
pub open spec fn nothing_to_queue(o: GraduationSession) -> bool {
    forall|i: int|
        0 <= i < o.packages().len() ==> !eligible_package(#[trigger] o.packages()[i]) || o.queue().contains(
            o.packages()[i].name@,
        )
}

/// Adding to pre-release left the queue alone and put at most one package
/// of the project, not yet in pre-release, in with a valid tag.
pub open spec fn pre_add_effect(o: PrereleaseSession, f: PrereleaseSession) -> bool {
    f.queue() == o.queue() && (f.tags() == o.tags() || exists|n: Seq<char>, t: Seq<char>|
        f.tags() == o.tags().insert(n, t) && !o.tags().dom().contains(n) && package_names(o.packages()).contains(n)
            && valid_prerelease_tag(t))
}

/// Removing from pre-release left the queue alone and took at most one
/// package out.
pub open spec fn pre_remove_effect(o: PrereleaseSession, f: PrereleaseSession) -> bool {
    f.queue() == o.queue() && (f.tags() == o.tags() || exists|n: Seq<char>|
        o.tags().dom().contains(n) && f.tags() == o.tags().remove(n))
}

/// Graduating moved at most one eligible package from pre-release to the
/// queue.
pub open spec fn pre_graduate_effect(o: PrereleaseSession, f: PrereleaseSession) -> bool {
    (f.tags() == o.tags() && f.queue() == o.queue()) || exists|n: Seq<char>|
        has_eligible(o.packages(), n) && f.tags() == o.tags().remove(n) && f.queue() == o.queue().insert(n)
}

/// Queuing added at most one eligible package that was not queued.
pub open spec fn grad_add_effect(o: GraduationSession, f: GraduationSession) -> bool {
    f.queue() == o.queue() || exists|n: Seq<char>|
        has_eligible(o.packages(), n) && !o.queue().contains(n) && f.queue() == o.queue().insert(n)
}

/// Dequeuing took at most one queued package out.
pub open spec fn grad_remove_effect(o: GraduationSession, f: GraduationSession) -> bool {
    f.queue() == o.queue() || exists|n: Seq<char>| o.queue().contains(n) && f.queue() == o.queue().remove(n)
}

/// Manages pre-releases through a menu. A session shows the state, asks
/// for an action and carries it out, until the user is done; each change
/// is saved at once.
pub struct PrereleaseManageOperation<P, S, I> {
    project_provider: P,
    release_state_io: S,
    interaction_provider: I,
}

impl<P: ProjectProvider, S: ReleaseStateIO, I: PrereleaseInteractionProvider + GraduationInteractionProvider> PrereleaseManageOperation<
    P,
    S,
    I,
> {
    pub closed spec fn parts(&self) -> (P, S, I) {
        (self.project_provider, self.release_state_io, self.interaction_provider)
    }

    pub fn new(project_provider: P, release_state_io: S, interaction_provider: I) -> (r: Self)
        ensures
            r.parts() == (project_provider, release_state_io, interaction_provider),
    {
        PrereleaseManageOperation { project_provider, release_state_io, interaction_provider }
    }

    /// Finds the project and loads its state.
    pub fn start(&self, start_path: &str) -> (r: Result<PrereleaseSession>)
        ensures
            r matches Ok(s) ==> s.wf(),
    {
        let project = self.project_provider.discover_project(start_path)?;
        let (root_config, _) = self.project_provider.load_configs(&project)?;
        let changeset_dir = path_join(project.root.as_str(), root_config.changeset_dir.as_str());
        let prerelease = load_prerelease(&self.release_state_io, changeset_dir.as_str())?;
        let graduation = load_graduation(&self.release_state_io, changeset_dir.as_str())?;
        Ok(PrereleaseSession { project, changeset_dir, prerelease, graduation })
    }

    /// The interaction provider, which the menu loop asks for each action.
    pub fn interaction_provider(&self) -> (r: &I)
        ensures
            *r == self.parts().2,
    {
        &self.interaction_provider
    }

    /// One round of the menu: shows the state and carries out the action
    /// the user chose. Tells whether the session goes on: it ends exactly
    /// on `Done` or when the user backs out.
    pub fn step(
        &self,
        session: &mut PrereleaseSession,
        action: MenuSelection<PrereleaseAction>,
        events: &mut Vec<PrereleaseEvent>,
    ) -> (r: Result<bool>)
        requires
            old(session).wf(),
        ensures
            final(session).wf(),
            final(session).packages() == old(session).packages(),
            final(events)@.len() > old(events)@.len(),
            final(events)@[old(events)@.len() as int] is DisplayState,
            forall|k: int| 0 <= k < old(events)@.len() ==> #[trigger] final(events)@[k] == old(events)@[k],
            ends_session(action) ==> (r matches Ok(false)) && final(session).tags() == old(session).tags()
                && final(session).queue() == old(session).queue() && final(events)@.len() == old(events)@.len() + 1,
            !ends_session(action) ==> (r is Ok ==> r matches Ok(true)),
            action == MenuSelection::Selected(PrereleaseAction::Add) ==> (r is Ok ==> pre_add_effect(
                *old(session),
                *final(session),
            )) && (all_in_prerelease(*old(session)) ==> (r matches Ok(true)) && final(session).tags() == old(
                session,
            ).tags() && final(events)@.len() == old(events)@.len() + 2 && final(events)@[old(events)@.len() + 1int]
                == PrereleaseEvent::AllPackagesInPrerelease),
            action == MenuSelection::Selected(PrereleaseAction::Remove) ==> (r is Ok ==> pre_remove_effect(
                *old(session),
                *final(session),
            )) && (old(session).tags().dom().len() == 0 && old(session).tags().dom().finite() ==> (r matches Ok(true))
                && final(events)@.len() == old(events)@.len() + 2 && final(events)@[old(events)@.len() + 1int]
                == PrereleaseEvent::NoPrereleasePackages),
            action == MenuSelection::Selected(PrereleaseAction::Graduate) ==> (r is Ok ==> pre_graduate_effect(
                *old(session),
                *final(session),
            )) && (no_eligible(old(session).packages()) ==> (r matches Ok(true)) && final(session).queue() == old(
                session,
            ).queue() && final(events)@.len() == old(events)@.len() + 2 && final(events)@[old(events)@.len() + 1int]
                == PrereleaseEvent::NoEligibleForGraduation),
    {
        events.push(PrereleaseEvent::DisplayState(session.prerelease.entries()));
        let ghost shown = events@;
        match action {
            MenuSelection::Selected(PrereleaseAction::Add) => {
                self.handle_add(session, events)?;
            },
            MenuSelection::Selected(PrereleaseAction::Remove) => {
                self.handle_remove(session, events)?;
            },
            MenuSelection::Selected(PrereleaseAction::Graduate) => {
                self.handle_graduate(session, events)?;
            },
            MenuSelection::Selected(PrereleaseAction::Done) | MenuSelection::Cancelled => {
                return Ok(false);
            },
        }
        proof {
            assert forall|k: int| 0 <= k < old(events)@.len() implies #[trigger] events@[k] == old(events)@[k] by {
                assert(shown[k] == old(events)@[k]);
            }
        }
        Ok(true)
    }

    /// Puts a package that is not yet in pre-release into pre-release with
    /// a tag the user gives, or reports that every package already is.
    pub fn handle_add(&self, session: &mut PrereleaseSession, events: &mut Vec<PrereleaseEvent>) -> (r: Result<()>)
        requires
            old(session).wf(),
        ensures
            final(session).wf(),
            final(session).packages() == old(session).packages(),
            final(session).queue() == old(session).queue(),
            final(events)@.len() >= old(events)@.len(),
            forall|k: int| 0 <= k < old(events)@.len() ==> #[trigger] final(events)@[k] == old(events)@[k],
            r is Ok ==> final(session).tags() == old(session).tags() || exists|n: Seq<char>, t: Seq<char>|
                final(session).tags() == old(session).tags().insert(n, t) && !old(session).tags().dom().contains(n)
                    && package_names(old(session).packages()).contains(n) && valid_prerelease_tag(t),
            (forall|i: int|
                0 <= i < old(session).packages().len() ==> old(session).tags().dom().contains(
                    #[trigger] old(session).packages()[i].name@,
                )) ==> r is Ok && final(events)@ == old(events)@.push(PrereleaseEvent::AllPackagesInPrerelease)
                && final(session).tags() == old(session).tags(),
    {
        let ghost pkgs = session.project.packages@;
        let mut available: Vec<PackageInfo> = Vec::new();
        let mut i: usize = 0;
        while i < session.project.packages.len()
            invariant
                i <= session.project.packages.len(),
                pkgs == session.project.packages@,
                session.prerelease.wf(),
                forall|k: int|
                    0 <= k < available@.len() ==> package_names(pkgs).contains(#[trigger] available@[k].name@)
                        && !session.prerelease.tags().dom().contains(available@[k].name@),
                available@.len() == 0 ==> forall|j: int|
                    0 <= j < i ==> session.prerelease.tags().dom().contains(#[trigger] pkgs[j].name@),
            decreases session.project.packages.len() - i,
        {
            if !session.prerelease.contains(session.project.packages[i].name.as_str()) {
                let ghost before = available@;
                available.push(session.project.packages[i].clone());
                proof {
                    assert(package_names(pkgs)[i as int] == pkgs[i as int].name@);
                    assert forall|k: int|
                        0 <= k < available@.len() implies package_names(pkgs).contains(#[trigger] available@[k].name@)
                            && !session.prerelease.tags().dom().contains(available@[k].name@) by {
                        if k < before.len() {
                            assert(available@[k] == before[k]);
                        }
                    }
                }
            }
            i = i + 1;
        }
        if available.len() == 0 {
            events.push(PrereleaseEvent::AllPackagesInPrerelease);
            proof {
                assert(events@.take(old(events)@.len() as int) =~= old(events)@);
            }
            return Ok(());
        }
        proof {
            let n = available@[0].name@;
            let j = choose|j: int| 0 <= j < package_names(pkgs).len() && package_names(pkgs)[j] == n;
            assert(pkgs[j].name@ == n);
            assert(!session.prerelease.tags().dom().contains(pkgs[j].name@));
            assert(!old(session).tags().dom().contains(old(session).packages()[j].name@));
        }
        let selection = self.interaction_provider.select_package_for_prerelease(available.as_slice())?;
        let index = match selection {
            MenuSelection::Selected(index) => index,
            MenuSelection::Cancelled => {
                return Ok(());
            },
        };
        if index >= available.len() {
            return Ok(());
        }
        let crate_name = available[index].name.clone();
        let tag = self.interaction_provider.get_prerelease_tag()?;
        validate_prerelease_tag(tag.as_str())?;
        let ghost before = session.prerelease.tags();
        session.prerelease.insert(crate_name.clone(), tag.clone());
        proof {
            assert(session.prerelease.tags() =~= before.insert(crate_name@, tag@));
        }
        self.release_state_io.save_prerelease_state(session.changeset_dir.as_str(), &session.prerelease)?;
        events.push(PrereleaseEvent::Added { crate_name, tag });
        proof {
            assert(events@.take(old(events)@.len() as int) =~= old(events)@);
        }
        Ok(())
    }

    /// Takes a package the user picks out of pre-release, or reports that
    /// none is in pre-release.
    pub fn handle_remove(&self, session: &mut PrereleaseSession, events: &mut Vec<PrereleaseEvent>) -> (r: Result<()>)
        requires
            old(session).wf(),
        ensures
            final(session).wf(),
            final(session).packages() == old(session).packages(),
            final(session).queue() == old(session).queue(),
            final(events)@.len() >= old(events)@.len(),
            forall|k: int| 0 <= k < old(events)@.len() ==> #[trigger] final(events)@[k] == old(events)@[k],
            r is Ok ==> final(session).tags() == old(session).tags() || exists|n: Seq<char>|
                old(session).tags().dom().contains(n) && final(session).tags() == old(session).tags().remove(n),
            old(session).tags().dom().len() == 0 && old(session).tags().dom().finite() ==> r is Ok && final(events)@ == old(events)@.push(
                PrereleaseEvent::NoPrereleasePackages,
            ),
    {
        proof {
            session.prerelease.lemma_wf_facts();
        }
        if session.prerelease.is_empty() {
            events.push(PrereleaseEvent::NoPrereleasePackages);
            proof {
                assert(events@.take(old(events)@.len() as int) =~= old(events)@);
            }
            return Ok(());
        }
        proof {
            let n = session.prerelease.names()[0];
            assert(session.prerelease.names().contains(n));
            assert(session.prerelease.tags().dom().contains(n));
        }
        let items = session.prerelease.entries();
        let selection = self.interaction_provider.select_package_to_remove_prerelease(items.as_slice())?;
        let index = match selection {
            MenuSelection::Selected(index) => index,
            MenuSelection::Cancelled => {
                return Ok(());
            },
        };
        if index >= items.len() {
            return Ok(());
        }
        let crate_name = items[index].0.clone();
        proof {
            assert(crate::release_state::pair_views(items@)[index as int] == session.prerelease.pairs()[index as int]);
            assert(session.prerelease.lookup(session.prerelease.pairs()[index as int].0) is Some);
        }
        let ghost before = session.prerelease.tags();
        let _ = session.prerelease.remove(crate_name.as_str());
        proof {
            assert(session.prerelease.tags() =~= before.remove(crate_name@));
        }
        self.release_state_io.save_prerelease_state(session.changeset_dir.as_str(), &session.prerelease)?;
        events.push(PrereleaseEvent::Removed { crate_name });
        proof {
            assert(events@.take(old(events)@.len() as int) =~= old(events)@);
        }
        Ok(())
    }

    /// Moves an eligible package the user picks to the graduation queue,
    /// taking it out of pre-release, or reports that none is eligible.
    pub fn handle_graduate(&self, session: &mut PrereleaseSession, events: &mut Vec<PrereleaseEvent>) -> (r: Result<()>)
        requires
            old(session).wf(),
        ensures
            final(session).wf(),
            final(session).packages() == old(session).packages(),
            final(events)@.len() >= old(events)@.len(),
            forall|k: int| 0 <= k < old(events)@.len() ==> #[trigger] final(events)@[k] == old(events)@[k],
            r is Ok ==> (final(session).tags() == old(session).tags() && final(session).queue() == old(session).queue())
                || exists|n: Seq<char>|
                has_eligible(old(session).packages(), n) && final(session).tags() == old(session).tags().remove(n)
                    && final(session).queue() == old(session).queue().insert(n),
            (forall|i: int|
                0 <= i < old(session).packages().len() ==> !eligible_package(#[trigger] old(session).packages()[i]))
                ==> r is Ok && final(events)@ == old(events)@.push(PrereleaseEvent::NoEligibleForGraduation)
                && final(session).queue() == old(session).queue(),
    {
        let ghost pkgs = session.project.packages@;
        let mut eligible: Vec<PackageInfo> = Vec::new();
        let mut i: usize = 0;
        while i < session.project.packages.len()
            invariant
                i <= session.project.packages.len(),
                pkgs == session.project.packages@,
                forall|k: int| 0 <= k < eligible@.len() ==> has_eligible(pkgs, #[trigger] eligible@[k].name@),
                eligible@.len() == 0 ==> forall|j: int| 0 <= j < i ==> !eligible_package(#[trigger] pkgs[j]),
            decreases session.project.packages.len() - i,
        {
            let p = &session.project.packages[i];
            if is_zero_version(&p.version) && !is_prerelease(&p.version) {
                let ghost before = eligible@;
                eligible.push(p.clone());
                proof {
                    assert(pkgs[i as int].name@ == p.name@);
                    assert forall|k: int| 0 <= k < eligible@.len() implies has_eligible(pkgs, #[trigger] eligible@[k].name@) by {
                        if k < before.len() {
                            assert(eligible@[k] == before[k]);
                        } else {
                            assert(pkgs[i as int].name@ == eligible@[k].name@);
                        }
                    }
                }
            }
            i = i + 1;
        }
        if eligible.len() == 0 {
            events.push(PrereleaseEvent::NoEligibleForGraduation);
            proof {
                assert(events@.take(old(events)@.len() as int) =~= old(events)@);
            }
            return Ok(());
        }
        proof {
            let n = eligible@[0].name@;
            assert(has_eligible(pkgs, n));
            let j = choose|j: int| 0 <= j < pkgs.len() && #[trigger] pkgs[j].name@ == n && eligible_package(pkgs[j]);
            assert(eligible_package(pkgs[j]));
            assert(eligible_package(old(session).packages()[j]));
        }
        let selection = self.interaction_provider.select_package_for_graduation(eligible.as_slice())?;
        let index = match selection {
            MenuSelection::Selected(index) => index,
            MenuSelection::Cancelled => {
                return Ok(());
            },
        };
        if index >= eligible.len() {
            return Ok(());
        }
        let crate_name = eligible[index].name.clone();
        let ghost tags0 = session.prerelease.tags();
        let ghost queue0 = session.graduation.members().to_set();
        if session.prerelease.remove(crate_name.as_str()).is_some() {
            self.release_state_io.save_prerelease_state(session.changeset_dir.as_str(), &session.prerelease)?;
        }
        proof {
            assert(session.prerelease.tags() =~= tags0.remove(crate_name@));
        }
        let ghost q1 = session.graduation.members();
        session.graduation.add(crate_name.clone());
        proof {
            assert(session.graduation.members().to_set() =~= queue0.insert(crate_name@)) by {
                assert forall|k: Seq<char>| session.graduation.members().to_set().contains(k) <==> queue0.insert(crate_name@).contains(k) by {
                    assert(session.graduation.members().contains(k) <==> (q1.contains(k) || k == crate_name@));
                }
            }
        }
        self.release_state_io.save_graduation_state(session.changeset_dir.as_str(), &session.graduation)?;
        events.push(PrereleaseEvent::MovedToGraduation { crate_name });
        proof {
            assert(events@.take(old(events)@.len() as int) =~= old(events)@);
        }
        Ok(())
    }
}

/// Manages the graduation queue through a menu, one round at a time.
pub struct GraduationManageOperation<P, S, I> {
    project_provider: P,
    release_state_io: S,
    interaction_provider: I,
}

impl<P: ProjectProvider, S: ReleaseStateIO, I: GraduationInteractionProvider> GraduationManageOperation<P, S, I> {
    pub closed spec fn parts(&self) -> (P, S, I) {
        (self.project_provider, self.release_state_io, self.interaction_provider)
    }

    pub fn new(project_provider: P, release_state_io: S, interaction_provider: I) -> (r: Self)
        ensures
            r.parts() == (project_provider, release_state_io, interaction_provider),
    {
        GraduationManageOperation { project_provider, release_state_io, interaction_provider }
    }

    /// The interaction provider, which the menu loop asks for each action.
    pub fn interaction_provider(&self) -> (r: &I)
        ensures
            *r == self.parts().2,
    {
        &self.interaction_provider
    }

    /// Finds the project and loads its graduation queue.
    pub fn start(&self, start_path: &str) -> (r: Result<GraduationSession>)
        ensures
            r matches Ok(s) ==> s.wf(),
    {
        let project = self.project_provider.discover_project(start_path)?;
        let (root_config, _) = self.project_provider.load_configs(&project)?;
        let changeset_dir = path_join(project.root.as_str(), root_config.changeset_dir.as_str());
        let state = load_graduation(&self.release_state_io, changeset_dir.as_str())?;
        Ok(GraduationSession { project, changeset_dir, state })
    }

    /// One round of the menu: shows the queue, asks for an action and
    /// carries it out. Tells whether the session goes on.
    pub fn step(
        &self,
        session: &mut GraduationSession,
        action: MenuSelection<GraduationAction>,
        events: &mut Vec<GraduationEvent>,
    ) -> (r: Result<bool>)
        requires
            old(session).wf(),
        ensures
            final(session).wf(),
            final(session).packages() == old(session).packages(),
            final(events)@.len() > old(events)@.len(),
            final(events)@[old(events)@.len() as int] is DisplayState,
            forall|k: int| 0 <= k < old(events)@.len() ==> #[trigger] final(events)@[k] == old(events)@[k],
            graduation_ends(action) ==> (r matches Ok(false)) && final(session).queue() == old(session).queue()
                && final(events)@.len() == old(events)@.len() + 1,
            !graduation_ends(action) ==> (r is Ok ==> r matches Ok(true)),
            action == MenuSelection::Selected(GraduationAction::Add) ==> (r is Ok ==> grad_add_effect(
                *old(session),
                *final(session),
            )) && (nothing_to_queue(*old(session)) ==> (r matches Ok(true)) && final(session).queue() == old(
                session,
            ).queue() && final(events)@.len() == old(events)@.len() + 2 && final(events)@[old(events)@.len() + 1int]
                == GraduationEvent::NoEligibleForGraduation),
            action == MenuSelection::Selected(GraduationAction::Remove) ==> (r is Ok ==> grad_remove_effect(
                *old(session),
                *final(session),
            )) && (old(session).queue().is_empty() ==> (r matches Ok(true)) && final(events)@.len() == old(events)@.len()
                + 2 && final(events)@[old(events)@.len() + 1int] == GraduationEvent::NoGraduationPackages),
    {
        events.push(GraduationEvent::DisplayState(session.state.names()));
        let ghost shown = events@;
        match action {
            MenuSelection::Selected(GraduationAction::Add) => {
                self.handle_add(session, events)?;
            },
            MenuSelection::Selected(GraduationAction::Remove) => {
                self.handle_remove(session, events)?;
            },
            MenuSelection::Selected(GraduationAction::Done) | MenuSelection::Cancelled => {
                return Ok(false);
            },
        }
        proof {
            assert forall|k: int| 0 <= k < old(events)@.len() implies #[trigger] events@[k] == old(events)@[k] by {
                assert(shown[k] == old(events)@[k]);
            }
        }
        Ok(true)
    }

    /// Queues an eligible package the user picks, or reports that none is
    /// eligible.
    pub fn handle_add(&self, session: &mut GraduationSession, events: &mut Vec<GraduationEvent>) -> (r: Result<()>)
        requires
            old(session).wf(),
        ensures
            final(session).wf(),
            final(session).packages() == old(session).packages(),
            final(events)@.len() >= old(events)@.len(),
            forall|k: int| 0 <= k < old(events)@.len() ==> #[trigger] final(events)@[k] == old(events)@[k],
            r is Ok ==> final(session).queue() == old(session).queue() || exists|n: Seq<char>|
                has_eligible(old(session).packages(), n) && !old(session).queue().contains(n) && final(session).queue()
                    == old(session).queue().insert(n),
            (forall|i: int|
                0 <= i < old(session).packages().len() ==> !eligible_package(#[trigger] old(session).packages()[i])
                    || old(session).queue().contains(old(session).packages()[i].name@)) ==> r is Ok && final(events)@
                == old(events)@.push(GraduationEvent::NoEligibleForGraduation) && final(session).queue() == old(
                session,
            ).queue(),
    {
        let ghost pkgs = session.project.packages@;
        let ghost q = session.state.members().to_set();
        let mut eligible: Vec<PackageInfo> = Vec::new();
        let mut i: usize = 0;
        while i < session.project.packages.len()
            invariant
                i <= session.project.packages.len(),
                pkgs == session.project.packages@,
                q == session.state.members().to_set(),
                forall|k: int|
                    0 <= k < eligible@.len() ==> has_eligible(pkgs, #[trigger] eligible@[k].name@) && !q.contains(
                        eligible@[k].name@,
                    ),
                eligible@.len() == 0 ==> forall|j: int|
                    0 <= j < i ==> !eligible_package(#[trigger] pkgs[j]) || q.contains(pkgs[j].name@),
            decreases session.project.packages.len() - i,
        {
            let p = &session.project.packages[i];
            if is_zero_version(&p.version) && !is_prerelease(&p.version) && !session.state.contains(p.name.as_str()) {
                let ghost before = eligible@;
                eligible.push(p.clone());
                proof {
                    assert(pkgs[i as int].name@ == p.name@);
                    assert forall|k: int|
                        0 <= k < eligible@.len() implies has_eligible(pkgs, #[trigger] eligible@[k].name@) && !q.contains(
                            eligible@[k].name@,
                        ) by {
                        if k < before.len() {
                            assert(eligible@[k] == before[k]);
                        } else {
                            assert(pkgs[i as int].name@ == eligible@[k].name@);
                        }
                    }
                }
            }
            i = i + 1;
        }
        if eligible.len() == 0 {
            events.push(GraduationEvent::NoEligibleForGraduation);
            proof {
                assert(events@.take(old(events)@.len() as int) =~= old(events)@);
            }
            return Ok(());
        }
        proof {
            let n = eligible@[0].name@;
            assert(has_eligible(pkgs, n));
            let j = choose|j: int| 0 <= j < pkgs.len() && #[trigger] pkgs[j].name@ == n && eligible_package(pkgs[j]);
            assert(eligible_package(pkgs[j]) && !q.contains(pkgs[j].name@));
            assert(eligible_package(old(session).packages()[j]) && !old(session).queue().contains(old(session).packages()[j].name@));
        }
        let selection = self.interaction_provider.select_package_for_graduation(eligible.as_slice())?;
        let index = match selection {
            MenuSelection::Selected(index) => index,
            MenuSelection::Cancelled => {
                return Ok(());
            },
        };
        if index >= eligible.len() {
            return Ok(());
        }
        let crate_name = eligible[index].name.clone();
        let ghost q1 = session.state.members();
        session.state.add(crate_name.clone());
        proof {
            assert(session.state.members().to_set() =~= q.insert(crate_name@)) by {
                assert forall|k: Seq<char>| session.state.members().to_set().contains(k) <==> q.insert(crate_name@).contains(k) by {
                    assert(session.state.members().contains(k) <==> (q1.contains(k) || k == crate_name@));
                }
            }
        }
        self.release_state_io.save_graduation_state(session.changeset_dir.as_str(), &session.state)?;
        events.push(GraduationEvent::Added { crate_name });
        proof {
            assert(events@.take(old(events)@.len() as int) =~= old(events)@);
        }
        Ok(())
    }

    /// Drops a queued package the user picks, or reports that nothing is
    /// queued.
    pub fn handle_remove(&self, session: &mut GraduationSession, events: &mut Vec<GraduationEvent>) -> (r: Result<()>)
        requires
            old(session).wf(),
        ensures
            final(session).wf(),
            final(session).packages() == old(session).packages(),
            final(events)@.len() >= old(events)@.len(),
            forall|k: int| 0 <= k < old(events)@.len() ==> #[trigger] final(events)@[k] == old(events)@[k],
            r is Ok ==> final(session).queue() == old(session).queue() || exists|n: Seq<char>|
                old(session).queue().contains(n) && final(session).queue() == old(session).queue().remove(n),
            old(session).queue().is_empty() ==> r is Ok && final(events)@ == old(events)@.push(
                GraduationEvent::NoGraduationPackages,
            ),
    {
        if session.state.is_empty() {
            events.push(GraduationEvent::NoGraduationPackages);
            proof {
                assert(events@.take(old(events)@.len() as int) =~= old(events)@);
            }
            return Ok(());
        }
        proof {
            let n = session.state.members()[0];
            assert(session.state.members().to_set().contains(n));
        }
        let items = session.state.names();
        let selection = self.interaction_provider.select_package_to_remove_graduation(items.as_slice())?;
        let index = match selection {
            MenuSelection::Selected(index) => index,
            MenuSelection::Cancelled => {
                return Ok(());
            },
        };
        if index >= items.len() {
            return Ok(());
        }
        let crate_name = items[index].clone();
        let ghost q = session.state.members();
        proof {
            assert(views(items@)[index as int] == crate_name@);
            assert(q.contains(crate_name@));
        }
        let _ = session.state.remove(crate_name.as_str());
        proof {
            assert(session.state.members().to_set() =~= q.to_set().remove(crate_name@));
        }
        self.release_state_io.save_graduation_state(session.changeset_dir.as_str(), &session.state)?;
        events.push(GraduationEvent::Removed { crate_name });
        proof {
            assert(events@.take(old(events)@.len() as int) =~= old(events)@);
        }
        Ok(())
    }
}

} // verus!

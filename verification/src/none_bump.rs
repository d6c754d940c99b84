//! What a release does with changesets whose bump type is `none`: let them
//! through, refuse them, or promote them to patch releases.
use vstd::prelude::*;

use crate::error::{OperationError, Result};
use crate::model::{
    changeset_views, clone_opt_string, release_views, ChangeCategory, Changeset, ChangesetView, NoneBumpBehavior,
    PackageRelease,
};
use crate::text::{contains_str, insert_sorted, lemma_contains_push, owned, strictly_sorted, views};
use crate::version::BumpType;

verus! {

/// All releases of a list of changesets, in order.
pub open spec fn flat_releases(cs: Seq<ChangesetView>) -> Seq<(Seq<char>, BumpType)>
    decreases cs.len(),
{
    if cs.len() == 0 {
        Seq::empty()
    } else {
        flat_releases(cs.drop_last()) + cs.last().releases
    }
}

/// Some release of the list names the package.
pub open spec fn names_package(rs: Seq<(Seq<char>, BumpType)>, n: Seq<char>) -> bool {
    exists|k: int| 0 <= k < rs.len() && (#[trigger] rs[k]).0 == n
}

/// Some release of the list bumps the package by more than `none`.
pub open spec fn bumps_package(rs: Seq<(Seq<char>, BumpType)>, n: Seq<char>) -> bool {
    exists|k: int| 0 <= k < rs.len() && (#[trigger] rs[k]).0 == n && rs[k].1 != BumpType::NoBump
}

/// A package that changesets name only with bump type `none`.
pub open spec fn none_only(cs: Seq<ChangesetView>, n: Seq<char>) -> bool {
    names_package(flat_releases(cs), n) && !bumps_package(flat_releases(cs), n)
}

pub proof fn lemma_names_push(rs: Seq<(Seq<char>, BumpType)>, r: (Seq<char>, BumpType))
    ensures
        forall|n: Seq<char>| names_package(rs.push(r), n) <==> (names_package(rs, n) || r.0 == n),
        forall|n: Seq<char>| bumps_package(rs.push(r), n) <==> (bumps_package(rs, n) || (r.0 == n && r.1 != BumpType::NoBump)),
{
    assert forall|n: Seq<char>| names_package(rs.push(r), n) <==> (names_package(rs, n) || r.0 == n) by {
        if names_package(rs, n) {
            let k = choose|k: int| 0 <= k < rs.len() && (#[trigger] rs[k]).0 == n;
            assert(rs.push(r)[k] == rs[k]);
        }
        if r.0 == n {
            assert(rs.push(r)[rs.len() as int] == r);
        }
        if names_package(rs.push(r), n) {
            let k = choose|k: int| 0 <= k < rs.push(r).len() && (#[trigger] rs.push(r)[k]).0 == n;
            if k < rs.len() {
                assert(rs[k] == rs.push(r)[k]);
            }
        }
    }
    assert forall|n: Seq<char>| bumps_package(rs.push(r), n) <==> (bumps_package(rs, n) || (r.0 == n && r.1 != BumpType::NoBump)) by {
        if bumps_package(rs, n) {
            let k = choose|k: int| 0 <= k < rs.len() && (#[trigger] rs[k]).0 == n && rs[k].1 != BumpType::NoBump;
            assert(rs.push(r)[k] == rs[k]);
        }
        if r.0 == n && r.1 != BumpType::NoBump {
            assert(rs.push(r)[rs.len() as int] == r);
        }
        if bumps_package(rs.push(r), n) {
            let k = choose|k: int| 0 <= k < rs.push(r).len() && (#[trigger] rs.push(r)[k]).0 == n && rs.push(r)[k].1 != BumpType::NoBump;
            if k < rs.len() {
                assert(rs[k] == rs.push(r)[k]);
            }
        }
    }
}

/// The packages that the changesets name only with bump type `none`, in
/// name order.
pub fn find_none_only_packages(changesets: &Vec<Changeset>) -> (r: Vec<String>)
    ensures
        strictly_sorted(views(r@)),
        forall|n: Seq<char>| views(r@).contains(n) <==> none_only(changeset_views(changesets@), n),
{
    let ghost cs = changeset_views(changesets@);
    let mut seen: Vec<String> = Vec::new();
    let mut bumped: Vec<String> = Vec::new();
    let mut i: usize = 0;
    while i < changesets.len()
        invariant
            i <= changesets.len(),
            cs == changeset_views(changesets@),
            strictly_sorted(views(seen@)),
            strictly_sorted(views(bumped@)),
            forall|n: Seq<char>| views(seen@).contains(n) <==> names_package(flat_releases(cs.take(i as int)), n),
            forall|n: Seq<char>| views(bumped@).contains(n) <==> bumps_package(flat_releases(cs.take(i as int)), n),
        decreases changesets.len() - i,
    {
        let releases = &changesets[i].releases;
        let ghost prefix = flat_releases(cs.take(i as int));
        let mut j: usize = 0;
        while j < releases.len()
            invariant
                j <= releases.len(),
                releases@ == changesets@[i as int].releases@,
                strictly_sorted(views(seen@)),
                strictly_sorted(views(bumped@)),
                forall|n: Seq<char>| views(seen@).contains(n) <==> names_package(prefix + release_views(releases@).take(j as int), n),
                forall|n: Seq<char>| views(bumped@).contains(n) <==> bumps_package(prefix + release_views(releases@).take(j as int), n),
            decreases releases.len() - j,
        {
            let r = &releases[j];
            proof {
                assert(prefix + release_views(releases@).take(j + 1) =~= (prefix + release_views(releases@).take(j as int)).push(r@));
                lemma_names_push(prefix + release_views(releases@).take(j as int), r@);
            }
            insert_sorted(&mut seen, r.name.clone());
            if !r.bump_type.is_noop() {
                insert_sorted(&mut bumped, r.name.clone());
            }
            j = j + 1;
        }
        proof {
            assert(cs.take(i + 1).drop_last() =~= cs.take(i as int));
            assert(cs.take(i + 1).last() == changesets@[i as int]@);
            assert(release_views(releases@).take(releases.len() as int) =~= release_views(releases@));
            assert(flat_releases(cs.take(i + 1)) =~= prefix + release_views(releases@));
        }
        i = i + 1;
    }
    proof {
        assert(cs.take(changesets.len() as int) =~= cs);
    }
    let mut result: Vec<String> = Vec::new();
    let mut k: usize = 0;
    while k < seen.len()
        invariant
            k <= seen.len(),
            strictly_sorted(views(result@)),
            forall|n: Seq<char>| views(seen@).contains(n) <==> names_package(flat_releases(cs), n),
            forall|n: Seq<char>| views(bumped@).contains(n) <==> bumps_package(flat_releases(cs), n),
            forall|n: Seq<char>| views(result@).contains(n) <==> (views(seen@).take(k as int).contains(n) && !views(bumped@).contains(n)),
        decreases seen.len() - k,
    {
        proof {
            assert(views(seen@).take(k + 1) =~= views(seen@).take(k as int).push(seen@[k as int]@));
            lemma_contains_push(views(seen@).take(k as int), seen@[k as int]@);
        }
        if !contains_str(&bumped, seen[k].as_str()) {
            insert_sorted(&mut result, seen[k].clone());
        }
        k = k + 1;
    }
    proof {
        assert(views(seen@).take(seen.len() as int) =~= views(seen@));
    }
    result
}

/// The releases with bump type `none`, in order.
pub open spec fn none_releases(s: Seq<(Seq<char>, BumpType)>) -> Seq<(Seq<char>, BumpType)>
    decreases s.len(),
{
    if s.len() == 0 {
        Seq::empty()
    } else {
        none_releases(s.drop_last()) + if s.last().1 == BumpType::NoBump {
            seq![s.last()]
        } else {
            Seq::empty()
        }
    }
}

/// The releases with a real bump, in order.
pub open spec fn real_releases(s: Seq<(Seq<char>, BumpType)>) -> Seq<(Seq<char>, BumpType)>
    decreases s.len(),
{
    if s.len() == 0 {
        Seq::empty()
    } else {
        real_releases(s.drop_last()) + if s.last().1 != BumpType::NoBump {
            seq![s.last()]
        } else {
            Seq::empty()
        }
    }
}

/// The same packages, each with a patch bump.
pub open spec fn as_patches(s: Seq<(Seq<char>, BumpType)>) -> Seq<(Seq<char>, BumpType)> {
    s.map_values(|r: (Seq<char>, BumpType)| (r.0, BumpType::Patch))
}

/// How one changeset is rewritten when `none` bumps are promoted: a
/// changeset without `none` bumps is kept; one with only `none` bumps
/// becomes a patch changeset with the promotion message; a mixed one is
/// split into its real bumps and a separate patch changeset for the rest.
pub open spec fn split_spec(c: ChangesetView, message: Seq<char>) -> Seq<ChangesetView> {
    let none = none_releases(c.releases);
    let bumped_part = real_releases(c.releases);
    if none.len() == 0 {
        seq![c]
    } else if bumped_part.len() == 0 {
        seq![ChangesetView {
            summary: message,
            category: ChangeCategory::Changed,
            releases: as_patches(c.releases),
            consumed_for_prerelease: c.consumed_for_prerelease,
            graduate: c.graduate,
        }]
    } else {
        seq![
            ChangesetView { releases: bumped_part, ..c },
            ChangesetView {
                summary: message,
                category: ChangeCategory::Changed,
                releases: as_patches(none),
                consumed_for_prerelease: None,
                graduate: false,
            },
        ]
    }
}

/// Every changeset rewritten by [`split_spec`], in order.
pub open spec fn promote_spec(cs: Seq<ChangesetView>, message: Seq<char>) -> Seq<ChangesetView>
    decreases cs.len(),
{
    if cs.len() == 0 {
        Seq::empty()
    } else {
        promote_spec(cs.drop_last(), message) + split_spec(cs.last(), message)
    }
}

fn releases_where(releases: &Vec<PackageRelease>, none: bool) -> (r: Vec<PackageRelease>)
    ensures
        release_views(r@) == if none { none_releases(release_views(releases@)) } else { real_releases(release_views(releases@)) },
{
    let mut r: Vec<PackageRelease> = Vec::new();
    let mut i: usize = 0;
    while i < releases.len()
        invariant
            i <= releases.len(),
            release_views(r@) == if none { none_releases(release_views(releases@).take(i as int)) } else { real_releases(release_views(releases@).take(i as int)) },
        decreases releases.len() - i,
    {
        proof {
            assert(release_views(releases@).take(i + 1).drop_last() =~= release_views(releases@).take(i as int));
            assert(release_views(releases@).take(i + 1).last() == releases@[i as int]@);
        }
        let is_none = releases[i].bump_type.is_noop();
        if is_none == none {
            r.push(releases[i].clone());
        }
        proof {
            assert(release_views(r@) =~= if none { none_releases(release_views(releases@).take(i + 1)) } else { real_releases(release_views(releases@).take(i + 1)) });
        }
        i = i + 1;
    }
    proof {
        assert(release_views(releases@).take(releases.len() as int) =~= release_views(releases@));
    }
    r
}

fn patch_releases(releases: &Vec<PackageRelease>) -> (r: Vec<PackageRelease>)
    ensures
        release_views(r@) == as_patches(release_views(releases@)),
{
    let mut r: Vec<PackageRelease> = Vec::new();
    let mut i: usize = 0;
    while i < releases.len()
        invariant
            i <= releases.len(),
            release_views(r@) == as_patches(release_views(releases@).take(i as int)),
        decreases releases.len() - i,
    {
        let ghost before = r@;
        r.push(PackageRelease { name: releases[i].name.clone(), bump_type: BumpType::Patch });
        proof {
            assert(release_views(r@) =~= release_views(before).push((releases@[i as int].name@, BumpType::Patch)));
            assert(release_views(releases@).take(i + 1) =~= release_views(releases@).take(i as int).push(releases@[i as int]@));
            assert(as_patches(release_views(releases@).take(i + 1)) =~= as_patches(release_views(releases@).take(i as int)).push((releases@[i as int].name@, BumpType::Patch)));
            assert(release_views(r@) =~= as_patches(release_views(releases@).take(i + 1)));
        }
        i = i + 1;
    }
    proof {
        assert(release_views(releases@).take(releases.len() as int) =~= release_views(releases@));
    }
    r
}

/// Rewrites one changeset as [`split_spec`] describes.
pub fn split_changeset(changeset: &Changeset, message: &str) -> (r: Vec<Changeset>)
    ensures
        changeset_views(r@) == split_spec(changeset@, message@),
{
    let none = releases_where(&changeset.releases, true);
    let bumped_part = releases_where(&changeset.releases, false);
    if none.len() == 0 {
        let r = vec![changeset.clone()];
        proof {
            assert(changeset_views(r@) =~= split_spec(changeset@, message@));
        }
        r
    } else if bumped_part.len() == 0 {
        let r = vec![Changeset {
            summary: owned(message),
            category: ChangeCategory::Changed,
            releases: patch_releases(&changeset.releases),
            consumed_for_prerelease: clone_opt_string(&changeset.consumed_for_prerelease),
            graduate: changeset.graduate,
        }];
        proof {
            assert(changeset_views(r@) =~= split_spec(changeset@, message@));
        }
        r
    } else {
        let promoted_releases = patch_releases(&none);
        let original = Changeset {
            summary: changeset.summary.clone(),
            category: changeset.category,
            releases: bumped_part,
            consumed_for_prerelease: clone_opt_string(&changeset.consumed_for_prerelease),
            graduate: changeset.graduate,
        };
        let promoted = Changeset {
            summary: owned(message),
            category: ChangeCategory::Changed,
            releases: promoted_releases,
            consumed_for_prerelease: None,
            graduate: false,
        };
        let r = vec![original, promoted];
        proof {
            assert(changeset_views(r@) =~= split_spec(changeset@, message@));
        }
        r
    }
}

/// Rewrites every changeset as [`promote_spec`] describes.
pub fn promote_none_to_patch(changesets: &Vec<Changeset>, message: &str) -> (r: Vec<Changeset>)
    ensures
        changeset_views(r@) == promote_spec(changeset_views(changesets@), message@),
{
    let ghost cs = changeset_views(changesets@);
    let mut r: Vec<Changeset> = Vec::new();
    let mut i: usize = 0;
    while i < changesets.len()
        invariant
            i <= changesets.len(),
            cs == changeset_views(changesets@),
            changeset_views(r@) == promote_spec(cs.take(i as int), message@),
        decreases changesets.len() - i,
    {
        let mut parts = split_changeset(&changesets[i], message);
        let ghost before = r@;
        let ghost part_views = changeset_views(parts@);
        r.append(&mut parts);
        proof {
            assert(cs.take(i + 1).drop_last() =~= cs.take(i as int));
            assert(cs.take(i + 1).last() == changesets@[i as int]@);
            assert(changeset_views(r@) =~= changeset_views(before) + part_views);
        }
        i = i + 1;
    }
    proof {
        assert(cs.take(changesets.len() as int) =~= cs);
    }
    r
}

/// Applies the configured treatment of `none` bumps: `Allow` keeps the
/// changesets, `Disallow` refuses them when some package is named only with
/// `none` (listing those packages in name order), `PromoteToPatch` rewrites
/// them as [`promote_spec`] describes.
pub fn apply_none_bump_behavior(changesets: Vec<Changeset>, behavior: NoneBumpBehavior, promote_message: &str) -> (r: Result<Vec<Changeset>>)
    ensures
        behavior == NoneBumpBehavior::Allow ==> (r matches Ok(v) && v@ == changesets@),
        behavior == NoneBumpBehavior::Disallow ==> (r is Ok <==> !exists|n: Seq<char>| none_only(changeset_views(changesets@), n)),
        behavior == NoneBumpBehavior::Disallow ==> (r matches Ok(v) ==> v@ == changesets@),
        behavior == NoneBumpBehavior::Disallow ==> (r matches Err(e) ==> (e matches OperationError::NoneBumpDisallowed { packages }
            && strictly_sorted(views(packages@))
            && forall|n: Seq<char>| views(packages@).contains(n) <==> none_only(changeset_views(changesets@), n))),
        behavior == NoneBumpBehavior::PromoteToPatch ==> (r matches Ok(v) && changeset_views(v@) == promote_spec(changeset_views(changesets@), promote_message@)),
{
    match behavior {
        NoneBumpBehavior::Allow => Ok(changesets),
        NoneBumpBehavior::Disallow => validate_no_none_bumps(changesets),
        NoneBumpBehavior::PromoteToPatch => Ok(promote_none_to_patch(&changesets, promote_message)),
    }
}

fn validate_no_none_bumps(changesets: Vec<Changeset>) -> (r: Result<Vec<Changeset>>)
    ensures
        r is Ok <==> !exists|n: Seq<char>| none_only(changeset_views(changesets@), n),
        r matches Ok(v) ==> v@ == changesets@,
        r matches Err(e) ==> (e matches OperationError::NoneBumpDisallowed { packages }
            && strictly_sorted(views(packages@))
            && forall|n: Seq<char>| views(packages@).contains(n) <==> none_only(changeset_views(changesets@), n)),
{
    let disallowed = find_none_only_packages(&changesets);
    if disallowed.len() == 0 {
        proof {
            assert forall|n: Seq<char>| !none_only(changeset_views(changesets@), n) by {
                if none_only(changeset_views(changesets@), n) {
                    assert(views(disallowed@).contains(n));
                }
            }
        }
        Ok(changesets)
    } else {
        proof {
            assert(views(disallowed@).contains(views(disallowed@)[0]));
        }
        Err(OperationError::NoneBumpDisallowed { packages: disallowed })
    }
}

/// After promotion no release has bump type `none`.
pub proof fn law_promotion_leaves_no_none_bump(cs: Seq<ChangesetView>, message: Seq<char>)
    ensures
        forall|i: int, j: int| 0 <= i < promote_spec(cs, message).len() && 0 <= j < promote_spec(cs, message)[i].releases.len()
            ==> (#[trigger] promote_spec(cs, message)[i].releases[j]).1 != BumpType::NoBump,
    decreases cs.len(),
{
    if cs.len() > 0 {
        law_promotion_leaves_no_none_bump(cs.drop_last(), message);
        let c = cs.last();
        lemma_split_kinds(c.releases);
        let p = promote_spec(cs, message);
        let prev = promote_spec(cs.drop_last(), message);
        let part = split_spec(c, message);
        assert forall|i: int, j: int| 0 <= i < p.len() && 0 <= j < p[i].releases.len() implies (#[trigger] p[i].releases[j]).1 != BumpType::NoBump by {
            if i < prev.len() {
                assert(p[i] == prev[i]);
                assert(prev[i].releases[j].1 != BumpType::NoBump);
            } else {
                assert(p[i] == part[i - prev.len()]);
            }
        }
    }
}

proof fn lemma_split_kinds(s: Seq<(Seq<char>, BumpType)>)
    ensures
        forall|j: int| 0 <= j < real_releases(s).len() ==> (#[trigger] real_releases(s)[j]).1 != BumpType::NoBump,
        forall|j: int| 0 <= j < none_releases(s).len() ==> (#[trigger] none_releases(s)[j]).1 == BumpType::NoBump,
        none_releases(s).len() == 0 ==> forall|j: int| 0 <= j < s.len() ==> (#[trigger] s[j]).1 != BumpType::NoBump,
    decreases s.len(),
{
    if s.len() > 0 {
        lemma_split_kinds(s.drop_last());
        assert forall|j: int| 0 <= j < real_releases(s).len() implies (#[trigger] real_releases(s)[j]).1 != BumpType::NoBump by {
            if j < real_releases(s.drop_last()).len() {
                assert(real_releases(s)[j] == real_releases(s.drop_last())[j]);
            }
        }
        assert forall|j: int| 0 <= j < none_releases(s).len() implies (#[trigger] none_releases(s)[j]).1 == BumpType::NoBump by {
            if j < none_releases(s.drop_last()).len() {
                assert(none_releases(s)[j] == none_releases(s.drop_last())[j]);
            }
        }
        if none_releases(s).len() == 0 {
            assert forall|j: int| 0 <= j < s.len() implies (#[trigger] s[j]).1 != BumpType::NoBump by {
                if j < s.len() - 1 {
                    assert(s[j] == s.drop_last()[j]);
                }
            }
        }
    }
}

} // verus!

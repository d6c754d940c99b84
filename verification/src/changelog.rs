//! Changelog entries and releases, and the grouping of changeset entries by
//! package that a release writes into changelogs.
use chrono::Datelike;
use vstd::prelude::*;

use crate::model::{ChangeCategory, Changeset, PackageRelease};
use crate::version::Version;

verus! {

/// A calendar date.
#[derive(Debug, PartialEq, Eq, Structural, Clone, Copy)]
pub struct ReleaseDate {
    pub year: i32,
    pub month: u32,
    pub day: u32,
}

/// Calls `chrono::Local::now().date_naive()` and takes its year, month and
/// day; what date comes back depends on the clock and the time zone, so the
/// contract states only the ranges that `chrono::Datelike` documents.
#[verifier::external_body]
pub(crate) fn today() -> (d: ReleaseDate)
    ensures
        1 <= d.month <= 12,
        1 <= d.day <= 31,
{
    let date = chrono::Local::now().date_naive();
    ReleaseDate { year: date.year(), month: date.month(), day: date.day() }
}

/// One line of a changelog.
#[derive(Debug, Clone, PartialEq, Eq)]
pub struct ChangelogEntry {
    pub category: ChangeCategory,
    pub description: String,
    /// The package the line is about, in a changelog shared by packages.
    pub package: Option<String>,
}

/// The entries of one released version.
#[derive(Debug, Clone, PartialEq, Eq)]
pub struct VersionRelease {
    pub version: Version,
    pub date: ReleaseDate,
    pub entries: Vec<ChangelogEntry>,
}

/// Where the repository is hosted, for comparison links.
#[derive(Debug, Clone, PartialEq, Eq)]
pub struct RepositoryInfo {
    pub host: String,
    pub owner: String,
    pub repo: String,
}

/// The position of the first `c` in `s`.
pub open spec fn first_index_of(s: Seq<char>, c: char) -> Option<int> {
    if exists|i: int| 0 <= i < s.len() && s[i] == c {
        Some(choose|i: int| 0 <= i < s.len() && s[i] == c && forall|j: int| 0 <= j < i ==> s[j] != c)
    } else {
        None
    }
}

/// `s` begins with `p`.
pub open spec fn has_prefix(s: Seq<char>, p: Seq<char>) -> bool {
    p.len() <= s.len() && s.subrange(0, p.len() as int) == p
}

/// `s` without a trailing `.git`.
pub open spec fn without_git_suffix(s: Seq<char>) -> Seq<char> {
    if s.len() >= 4 && s.subrange(s.len() - 4, s.len() as int) == ".git"@ {
        s.subrange(0, s.len() - 4)
    } else {
        s
    }
}

/// `s` split at the first `c`.
pub open spec fn split_first(s: Seq<char>, c: char) -> Option<(Seq<char>, Seq<char>)> {
    match first_index_of(s, c) {
        Some(i) => Some((s.subrange(0, i), s.subrange(i + 1, s.len() as int))),
        None => None,
    }
}

/// What follows the scheme of a remote URL, and the character that
/// separates the host from the path: `https://` and `http://` URLs use
/// `/`, `git@` addresses use `:`.
pub open spec fn url_location(s: Seq<char>) -> Option<(Seq<char>, char)> {
    if has_prefix(s, "https://"@) {
        Some((s.subrange(8, s.len() as int), '/'))
    } else if has_prefix(s, "http://"@) {
        Some((s.subrange(7, s.len() as int), '/'))
    } else if has_prefix(s, "git@"@) {
        Some((s.subrange(4, s.len() as int), ':'))
    } else {
        None
    }
}

/// The (host, owner, repository) of a remote URL of the form
/// `https://host/owner/repo`, `http://host/owner/repo` or
/// `git@host:owner/repo`, with an optional trailing `.git`; each part is
/// non-empty and the repository holds no `/`.
pub open spec fn repository_spec(url: Seq<char>) -> Option<(Seq<char>, Seq<char>, Seq<char>)> {
    match url_location(without_git_suffix(url)) {
        None => None,
        Some(loc) => match split_first(loc.0, loc.1) {
            None => None,
            Some(hp) => match split_first(hp.1, '/') {
                None => None,
                Some(or) => if hp.0.len() > 0 && or.0.len() > 0 && or.1.len() > 0 && first_index_of(or.1, '/') is None {
                    Some((hp.0, or.0, or.1))
                } else {
                    None
                },
            },
        },
    }
}

/// The position of the first `c` in `s`, or its length.
fn index_of_char(s: &str, c: char) -> (r: usize)
    ensures
        r <= s@.len(),
        r < s@.len() ==> first_index_of(s@, c) == Some(r as int),
        r == s@.len() ==> first_index_of(s@, c) is None,
{
    let len = s.unicode_len();
    let mut i: usize = 0;
    while i < len && s.get_char(i) != c
        invariant
            len == s@.len(),
            i <= len,
            forall|j: int| 0 <= j < i ==> s@[j] != c,
        decreases len - i,
    {
        i = i + 1;
    }
    proof {
        let t = s@;
        if i < len {
            assert(t[i as int] == c);
            let k = choose|k: int| 0 <= k < t.len() && t[k] == c && forall|j: int| 0 <= j < k ==> t[j] != c;
            if k < i {
                assert(t[k] != c);
            }
            if i < k {
                assert(t[i as int] != c);
            }
            assert(k == i);
        } else {
            assert(!exists|k: int| 0 <= k < t.len() && t[k] == c);
        }
    }
    i
}

/// Whether `s` begins with `p`.
fn starts_with_text(s: &str, p: &str) -> (r: bool)
    ensures
        r == has_prefix(s@, p@),
{
    let ls = s.unicode_len();
    let lp = p.unicode_len();
    if lp > ls {
        return false;
    }
    let mut i: usize = 0;
    while i < lp
        invariant
            ls == s@.len(),
            lp == p@.len(),
            lp <= ls,
            i <= lp,
            forall|j: int| 0 <= j < i ==> s@[j] == p@[j],
        decreases lp - i,
    {
        if s.get_char(i) != p.get_char(i) {
            proof {
                assert(s@.subrange(0, lp as int)[i as int] != p@[i as int]);
            }
            return false;
        }
        i = i + 1;
    }
    proof {
        assert(s@.subrange(0, lp as int) =~= p@);
    }
    true
}

/// `s` without a trailing `.git`.
fn strip_git_suffix(url: &str) -> (r: &str)
    ensures
        r@ == without_git_suffix(url@),
{
    proof {
        reveal_strlit(".git");
    }
    let len = url.unicode_len();
    if len >= 4 && crate::text::str_eq(url.substring_char(len - 4, len), ".git") {
        url.substring_char(0, len - 4)
    } else {
        url
    }
}

/// What follows the scheme, and the host separator.
fn split_location(s: &str) -> (r: Option<(&str, char)>)
    ensures
        match r {
            Some(p) => url_location(s@) == Some((p.0@, p.1)),
            None => url_location(s@) is None,
        },
{
    proof {
        reveal_strlit("https://");
        reveal_strlit("http://");
        reveal_strlit("git@");
    }
    let len = s.unicode_len();
    if starts_with_text(s, "https://") {
        Some((s.substring_char(8, len), '/'))
    } else if starts_with_text(s, "http://") {
        Some((s.substring_char(7, len), '/'))
    } else if starts_with_text(s, "git@") {
        Some((s.substring_char(4, len), ':'))
    } else {
        None
    }
}

/// `s` split at its first `c`.
fn split_at_char(s: &str, c: char) -> (r: Option<(&str, &str)>)
    ensures
        match r {
            Some(p) => split_first(s@, c) == Some((p.0@, p.1@)),
            None => split_first(s@, c) is None,
        },
{
    let len = s.unicode_len();
    let i = index_of_char(s, c);
    if i == len {
        None
    } else {
        Some((s.substring_char(0, i), s.substring_char(i + 1, len)))
    }
}

impl RepositoryInfo {
    /// Reads the host, owner and repository from a remote URL; `None` when
    /// the URL has none of the accepted forms.
    pub fn from_url(url: &str) -> (r: Option<RepositoryInfo>)
        ensures
            r is Some <==> repository_spec(url@) is Some,
            r matches Some(i) ==> repository_spec(url@) == Some((i.host@, i.owner@, i.repo@)),
    {
        let trimmed = strip_git_suffix(url);
        let (rest, sep) = match split_location(trimmed) {
            Some(p) => p,
            None => return None,
        };
        let (host, path) = match split_at_char(rest, sep) {
            Some(p) => p,
            None => return None,
        };
        let (owner, repo) = match split_at_char(path, '/') {
            Some(p) => p,
            None => return None,
        };
        let rlen = repo.unicode_len();
        if host.unicode_len() == 0 || owner.unicode_len() == 0 || rlen == 0 || index_of_char(repo, '/') < rlen {
            return None;
        }
        Some(RepositoryInfo { host: crate::text::owned(host), owner: crate::text::owned(owner), repo: crate::text::owned(repo) })
    }
}

/// What writing a release into a changelog did.
#[derive(Debug, Clone, PartialEq, Eq)]
pub struct ChangelogWriteResult {
    pub path: String,
    /// Whether the changelog file was created.
    pub created: bool,
}

/// The abstract value of an entry: category, text and package.
pub open spec fn entry_view(e: ChangelogEntry) -> (ChangeCategory, Seq<char>, Option<Seq<char>>) {
    (e.category, e.description@, match e.package {
        Some(p) => Some(p@),
        None => None,
    })
}

pub open spec fn entry_views(s: Seq<ChangelogEntry>) -> Seq<(ChangeCategory, Seq<char>, Option<Seq<char>>)> {
    s.map_values(|e: ChangelogEntry| entry_view(e))
}

/// The (package, entry) items of an aggregator.
pub open spec fn item_views(s: Seq<(String, ChangelogEntry)>) -> Seq<(Seq<char>, (ChangeCategory, Seq<char>, Option<Seq<char>>))> {
    s.map_values(|p: (String, ChangelogEntry)| (p.0@, entry_view(p.1)))
}

/// The entries recorded for `name`, in order.
pub open spec fn entries_for(items: Seq<(Seq<char>, (ChangeCategory, Seq<char>, Option<Seq<char>>))>, name: Seq<char>) -> Seq<
    (ChangeCategory, Seq<char>, Option<Seq<char>>),
>
    decreases items.len(),
{
    if items.len() == 0 {
        Seq::empty()
    } else {
        let prev = entries_for(items.drop_last(), name);
        if items.last().0 == name {
            prev.push(items.last().1)
        } else {
            prev
        }
    }
}

/// The items a changeset adds: one entry per release, with the
/// changeset's category and summary.
pub open spec fn changeset_items(c: Changeset) -> Seq<(Seq<char>, (ChangeCategory, Seq<char>, Option<Seq<char>>))> {
    c.releases@.map_values(|r: PackageRelease| (r.name@, (c.category, c.summary@, None::<Seq<char>>)))
}

/// An entry marked with the package it is about.
pub open spec fn with_package(e: (ChangeCategory, Seq<char>, Option<Seq<char>>), name: Seq<char>) -> (ChangeCategory, Seq<char>, Option<Seq<char>>) {
    (e.0, e.1, Some(name))
}

/// The entries of a shared changelog: for each package in order, its
/// entries marked with its name.
pub open spec fn root_entries(
    items: Seq<(Seq<char>, (ChangeCategory, Seq<char>, Option<Seq<char>>))>,
    packages: Seq<Seq<char>>,
) -> Seq<(ChangeCategory, Seq<char>, Option<Seq<char>>)>
    decreases packages.len(),
{
    if packages.len() == 0 {
        Seq::empty()
    } else {
        let name = packages.last();
        root_entries(items, packages.drop_last()) + entries_for(items, name).map_values(
            |e: (ChangeCategory, Seq<char>, Option<Seq<char>>)| with_package(e, name),
        )
    }
}

/// The changelog line for a dependency update: the template with
/// `{dependency}` and `{version}` filled in.
pub open spec fn dependency_line(template: Seq<char>, dependency: Seq<char>, version: Seq<char>) -> Seq<char> {
    crate::text::replace_spec(crate::text::replace_spec(template, "{dependency}"@, dependency), "{version}"@, version)
}

/// Collects changelog entries by package.
pub struct ChangesetAggregator {
    items: Vec<(String, ChangelogEntry)>,
}

impl ChangesetAggregator {
    /// The (package, entry) items in the order they were added.
    pub closed spec fn items(&self) -> Seq<(Seq<char>, (ChangeCategory, Seq<char>, Option<Seq<char>>))> {
        item_views(self.items@)
    }

    pub fn new() -> (r: Self)
        ensures
            r.items() == Seq::<(Seq<char>, (ChangeCategory, Seq<char>, Option<Seq<char>>))>::empty(),
    {
        ChangesetAggregator { items: Vec::new() }
    }

    fn push_item(&mut self, name: String, entry: ChangelogEntry)
        ensures
            final(self).items() == old(self).items().push((name@, entry_view(entry))),
    {
        self.items.push((name, entry));
        proof {
            assert(item_views(self.items@) =~= item_views(old(self).items@).push((name@, entry_view(entry))));
        }
    }

    /// Adds an entry for each package a changeset releases.
    pub fn add_changeset(&mut self, changeset: &Changeset)
        ensures
            final(self).items() == old(self).items() + changeset_items(*changeset),
    {
        let mut i: usize = 0;
        while i < changeset.releases.len()
            invariant
                i <= changeset.releases.len(),
                self.items() == old(self).items() + changeset.releases@.take(i as int).map_values(
                    |r: PackageRelease| (r.name@, (changeset.category, changeset.summary@, None::<Seq<char>>)),
                ),
            decreases changeset.releases.len() - i,
        {
            let entry = ChangelogEntry { category: changeset.category, description: changeset.summary.clone(), package: None };
            self.push_item(changeset.releases[i].name.clone(), entry);
            proof {
                assert(changeset.releases@.take(i + 1).map_values(
                    |r: PackageRelease| (r.name@, (changeset.category, changeset.summary@, None::<Seq<char>>)),
                ) =~= changeset.releases@.take(i as int).map_values(
                    |r: PackageRelease| (r.name@, (changeset.category, changeset.summary@, None::<Seq<char>>)),
                ).push((changeset.releases@[i as int].name@, (changeset.category, changeset.summary@, None::<Seq<char>>))));
            }
            i = i + 1;
        }
        proof {
            assert(changeset.releases@.take(changeset.releases@.len() as int) =~= changeset.releases@);
        }
    }

    /// Adds, for a package released because its dependencies were, a
    /// `Changed` entry per updated dependency, written from the template.
    pub fn add_dependency_update_entries(&mut self, name: &str, deps: &Vec<(String, Version)>, template: &str)
        ensures
            final(self).items() == old(self).items() + deps@.map_values(
                |d: (String, Version)| (name@, (ChangeCategory::Changed, dependency_line(template@, d.0@, crate::version::version_text(d.1@)), None::<Seq<char>>)),
            ),
    {
        proof {
            reveal_strlit("{dependency}");
            reveal_strlit("{version}");
        }
        let mut i: usize = 0;
        while i < deps.len()
            invariant
                i <= deps.len(),
                self.items() == old(self).items() + deps@.take(i as int).map_values(
                    |d: (String, Version)| (name@, (ChangeCategory::Changed, dependency_line(template@, d.0@, crate::version::version_text(d.1@)), None::<Seq<char>>)),
                ),
            decreases deps.len() - i,
        {
            proof {
                reveal_strlit("{dependency}");
                reveal_strlit("{version}");
            }
            let version = deps[i].1.to_string();
            let with_name = crate::text::replace_all(template, "{dependency}", deps[i].0.as_str());
            let text = crate::text::replace_all(with_name.as_str(), "{version}", version.as_str());
            self.push_item(crate::text::owned(name), ChangelogEntry { category: ChangeCategory::Changed, description: text, package: None });
            proof {
                assert(deps@.take(i + 1).map_values(
                    |d: (String, Version)| (name@, (ChangeCategory::Changed, dependency_line(template@, d.0@, crate::version::version_text(d.1@)), None::<Seq<char>>)),
                ) =~= deps@.take(i as int).map_values(
                    |d: (String, Version)| (name@, (ChangeCategory::Changed, dependency_line(template@, d.0@, crate::version::version_text(d.1@)), None::<Seq<char>>)),
                ).push((name@, (ChangeCategory::Changed, dependency_line(template@, deps@[i as int].0@, crate::version::version_text(deps@[i as int].1@)), None::<Seq<char>>))));
            }
            i = i + 1;
        }
        proof {
            assert(deps@.take(deps@.len() as int) =~= deps@);
        }
    }

    /// The entries recorded for `name`, cloned.
    fn entries_of(&self, name: &str) -> (r: Vec<ChangelogEntry>)
        ensures
            entry_views(r@) == entries_for(self.items(), name@),
    {
        let mut r: Vec<ChangelogEntry> = Vec::new();
        let mut i: usize = 0;
        while i < self.items.len()
            invariant
                i <= self.items.len(),
                entry_views(r@) == entries_for(item_views(self.items@).take(i as int), name@),
            decreases self.items.len() - i,
        {
            proof {
                assert(item_views(self.items@).take(i + 1).drop_last() =~= item_views(self.items@).take(i as int));
            }
            if crate::text::str_eq(self.items[i].0.as_str(), name) {
                let e = &self.items[i].1;
                let ghost before = r@;
                r.push(ChangelogEntry { category: e.category, description: e.description.clone(), package: crate::model::clone_opt_string(&e.package) });
                proof {
                    assert(entry_views(r@) =~= entry_views(before).push(entry_view(self.items@[i as int].1)));
                }
            }
            i = i + 1;
        }
        proof {
            assert(item_views(self.items@).take(self.items@.len() as int) =~= item_views(self.items@));
        }
        r
    }

    /// The release of one package, if it has entries.
    pub fn build_package_release(&self, name: &str, version: &Version, date: ReleaseDate) -> (r: Option<VersionRelease>)
        ensures
            r is Some <==> entries_for(self.items(), name@).len() > 0,
            r matches Some(v) ==> v.version == *version && v.date == date && entry_views(v.entries@) == entries_for(self.items(), name@),
    {
        let entries = self.entries_of(name);
        if entries.len() == 0 {
            return None;
        }
        Some(VersionRelease { version: version.clone(), date, entries })
    }

    /// The release of a changelog shared by packages: each package's
    /// entries, in the order of `packages`, marked with its name; `None`
    /// when there is no entry.
    pub fn build_root_release(&self, version: &Version, date: ReleaseDate, packages: &Vec<(String, Version)>) -> (r: Option<VersionRelease>)
        ensures
            r is Some <==> root_entries(self.items(), packages@.map_values(|p: (String, Version)| p.0@)).len() > 0,
            r matches Some(v) ==> v.version == *version && v.date == date && entry_views(v.entries@) == root_entries(
                self.items(),
                packages@.map_values(|p: (String, Version)| p.0@),
            ),
    {
        let ghost names = packages@.map_values(|p: (String, Version)| p.0@);
        let mut all: Vec<ChangelogEntry> = Vec::new();
        let mut i: usize = 0;
        while i < packages.len()
            invariant
                i <= packages.len(),
                names == packages@.map_values(|p: (String, Version)| p.0@),
                entry_views(all@) == root_entries(self.items(), names.take(i as int)),
            decreases packages.len() - i,
        {
            let name = &packages[i].0;
            let entries = self.entries_of(name.as_str());
            let ghost start = entry_views(all@);
            let mut j: usize = 0;
            while j < entries.len()
                invariant
                    j <= entries.len(),
                    entry_views(all@) == start + entry_views(entries@).take(j as int).map_values(
                        |e: (ChangeCategory, Seq<char>, Option<Seq<char>>)| with_package(e, name@),
                    ),
                decreases entries.len() - j,
            {
                let e = &entries[j];
                let ghost before = all@;
                all.push(ChangelogEntry { category: e.category, description: e.description.clone(), package: Some(name.clone()) });
                proof {
                    assert(entry_views(all@) =~= entry_views(before).push(with_package(entry_view(entries@[j as int]), name@)));
                    assert(entry_views(entries@).take(j + 1).map_values(
                        |e: (ChangeCategory, Seq<char>, Option<Seq<char>>)| with_package(e, name@),
                    ) =~= entry_views(entries@).take(j as int).map_values(
                        |e: (ChangeCategory, Seq<char>, Option<Seq<char>>)| with_package(e, name@),
                    ).push(with_package(entry_view(entries@[j as int]), name@)));
                }
                j = j + 1;
            }
            proof {
                assert(entry_views(entries@).take(entries@.len() as int) =~= entry_views(entries@));
                assert(names.take(i + 1).drop_last() =~= names.take(i as int));
                assert(names.take(i + 1).last() == name@);
            }
            i = i + 1;
        }
        proof {
            assert(names.take(packages@.len() as int) =~= names);
        }
        if all.len() == 0 {
            return None;
        }
        Some(VersionRelease { version: version.clone(), date, entries: all })
    }
}

} // verus!

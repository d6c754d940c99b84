//! Checking a set of changes against its changesets: which packages the
//! changed files belong to, and whether every affected package is covered
//! by a changeset.
use vstd::prelude::*;

use crate::config::{PackageChangesetConfig, RootChangesetConfig};
use crate::model::{Changeset, NoneBumpBehavior, PackageInfo, PackageRelease, CargoProject};
use crate::paths::{glob_match_spec, glob_matches, path_starts_with, path_starts_with_spec, path_strip_prefix, path_strip_prefix_spec};
use crate::text::{contains_str, insert_sorted, push_string, strictly_sorted, views};
use crate::version::BumpType;

verus! {

/// A package's directory relative to the project root.
pub open spec fn rel_dir(root: Seq<char>, pkg_path: Seq<char>) -> Seq<char> {
    match path_strip_prefix_spec(pkg_path, root) {
        Some(r) => r,
        None => pkg_path,
    }
}

/// A file lies in a package's directory.
pub open spec fn owns(root: Seq<char>, p: PackageInfo, file: Seq<char>) -> bool {
    path_starts_with_spec(file, rel_dir(root, p.path@))
}

/// Some package's directory holds the file.
pub open spec fn has_owner(root: Seq<char>, pkgs: Seq<PackageInfo>, file: Seq<char>) -> bool {
    exists|j: int| 0 <= j < pkgs.len() && owns(root, #[trigger] pkgs[j], file)
}

/// Package `i` owns the file: its directory holds it and is the deepest
/// such directory, the first of equally deep ones.
pub open spec fn is_owner(root: Seq<char>, pkgs: Seq<PackageInfo>, file: Seq<char>, i: int) -> bool {
    &&& 0 <= i < pkgs.len()
    &&& owns(root, pkgs[i], file)
    &&& forall|j: int|
        0 <= j < pkgs.len() && owns(root, #[trigger] pkgs[j], file) ==> rel_dir(root, pkgs[j].path@).len() <= rel_dir(
            root,
            pkgs[i].path@,
        ).len()
    &&& forall|j: int|
        0 <= j < i && owns(root, #[trigger] pkgs[j], file) ==> rel_dir(root, pkgs[j].path@).len() < rel_dir(
            root,
            pkgs[i].path@,
        ).len()
}

/// A file matches one of the ignore patterns.
pub open spec fn ignored(patterns: Seq<Seq<char>>, file: Seq<char>) -> bool {
    exists|k: int| 0 <= k < patterns.len() && glob_match_spec(#[trigger] patterns[k], file)
}

/// The ignore patterns of a package's own configuration, from the first
/// entry with its name; none without an entry.
pub open spec fn package_patterns(configs: Seq<(String, PackageChangesetConfig)>, name: Seq<char>) -> Seq<Seq<char>>
    decreases configs.len(),
{
    if configs.len() == 0 {
        Seq::empty()
    } else if configs[0].0@ == name {
        views(configs[0].1.ignored_files@)
    } else {
        package_patterns(configs.drop_first(), name)
    }
}

/// A file's path inside a package's directory.
pub open spec fn path_in_package(root: Seq<char>, p: PackageInfo, file: Seq<char>) -> Seq<char> {
    match path_strip_prefix_spec(file, rel_dir(root, p.path@)) {
        Some(r) => r,
        None => file,
    }
}

/// One of package `i`'s own patterns matches the file's path inside it.
pub open spec fn package_ignores(
    root: Seq<char>,
    pkgs: Seq<PackageInfo>,
    configs: Seq<(String, PackageChangesetConfig)>,
    file: Seq<char>,
    i: int,
) -> bool {
    ignored(package_patterns(configs, pkgs[i].name@), path_in_package(root, pkgs[i], file))
}

/// A file never affects a package: a project pattern matches it, or a
/// pattern of the package that owns it does.
pub open spec fn skipped(
    root: Seq<char>,
    pkgs: Seq<PackageInfo>,
    configs: Seq<(String, PackageChangesetConfig)>,
    patterns: Seq<Seq<char>>,
    file: Seq<char>,
) -> bool {
    ignored(patterns, file) || exists|o: int| #[trigger] is_owner(root, pkgs, file, o) && package_ignores(root, pkgs, configs, file, o)
}

/// The files that a project or package ignore pattern matches, in order.
pub open spec fn ignored_files_spec(
    root: Seq<char>,
    pkgs: Seq<PackageInfo>,
    configs: Seq<(String, PackageChangesetConfig)>,
    patterns: Seq<Seq<char>>,
    files: Seq<Seq<char>>,
) -> Seq<Seq<char>>
    decreases files.len(),
{
    if files.len() == 0 {
        Seq::empty()
    } else {
        let prev = ignored_files_spec(root, pkgs, configs, patterns, files.drop_last());
        if skipped(root, pkgs, configs, patterns, files.last()) {
            prev.push(files.last())
        } else {
            prev
        }
    }
}

/// The files that are neither ignored nor in a package, in order.
pub open spec fn project_files_spec(root: Seq<char>, pkgs: Seq<PackageInfo>, patterns: Seq<Seq<char>>, files: Seq<Seq<char>>) -> Seq<
    Seq<char>,
>
    decreases files.len(),
{
    if files.len() == 0 {
        Seq::empty()
    } else {
        let prev = project_files_spec(root, pkgs, patterns, files.drop_last());
        if !ignored(patterns, files.last()) && !has_owner(root, pkgs, files.last()) {
            prev.push(files.last())
        } else {
            prev
        }
    }
}

/// Package `i` owns a file of the list that neither the project's nor its
/// own patterns ignore.
pub open spec fn owns_some(
    root: Seq<char>,
    pkgs: Seq<PackageInfo>,
    configs: Seq<(String, PackageChangesetConfig)>,
    patterns: Seq<Seq<char>>,
    files: Seq<Seq<char>>,
    i: int,
) -> bool {
    exists|f: int|
        0 <= f < files.len() && !ignored(patterns, files[f]) && #[trigger] is_owner(root, pkgs, files[f], i)
            && !package_ignores(root, pkgs, configs, files[f], i)
}

/// The first `n` packages that own a changed file, in project order.
pub open spec fn affected_spec(
    root: Seq<char>,
    pkgs: Seq<PackageInfo>,
    configs: Seq<(String, PackageChangesetConfig)>,
    patterns: Seq<Seq<char>>,
    files: Seq<Seq<char>>,
    n: int,
) -> Seq<PackageInfo>
    decreases n,
{
    if n <= 0 {
        Seq::empty()
    } else {
        let prev = affected_spec(root, pkgs, configs, patterns, files, n - 1);
        if owns_some(root, pkgs, configs, patterns, files, n - 1) {
            prev.push(pkgs[n - 1])
        } else {
            prev
        }
    }
}

/// Where changed files belong.
#[derive(Debug)]
pub struct FileMapping {
    /// The packages that own a changed file, in project order.
    pub affected_packages: Vec<PackageInfo>,
    /// Changed files in no package.
    pub project_files: Vec<String>,
    /// Changed files that a project or package ignore pattern matches.
    pub ignored_files: Vec<String>,
}

/// A package's directory relative to the project root.
fn relative_dir(root: &str, pkg_path: &str) -> (r: String)
    ensures
        r@ == rel_dir(root@, pkg_path@),
{
    match path_strip_prefix(pkg_path, root) {
        Some(rest) => rest,
        None => crate::text::owned(pkg_path),
    }
}

/// The package that owns `file`, if any.
pub fn find_owner(root: &str, pkgs: &Vec<PackageInfo>, file: &str) -> (r: Option<usize>)
    ensures
        match r {
            Some(i) => is_owner(root@, pkgs@, file@, i as int),
            None => !has_owner(root@, pkgs@, file@),
        },
{
    let mut best: Option<usize> = None;
    let mut best_len: usize = 0;
    let mut j: usize = 0;
    while j < pkgs.len()
        invariant
            j <= pkgs.len(),
            match best {
                Some(b) => {
                    &&& b < j
                    &&& owns(root@, pkgs@[b as int], file@)
                    &&& best_len == rel_dir(root@, pkgs@[b as int].path@).len()
                    &&& forall|k: int|
                        0 <= k < j && owns(root@, #[trigger] pkgs@[k], file@) ==> rel_dir(root@, pkgs@[k].path@).len()
                            <= best_len
                    &&& forall|k: int|
                        0 <= k < b && owns(root@, #[trigger] pkgs@[k], file@) ==> rel_dir(root@, pkgs@[k].path@).len()
                            < best_len
                },
                None => forall|k: int| 0 <= k < j ==> !owns(root@, #[trigger] pkgs@[k], file@),
            },
        decreases pkgs.len() - j,
    {
        let rel = relative_dir(root, pkgs[j].path.as_str());
        if path_starts_with(file, rel.as_str()) {
            let len = rel.as_str().unicode_len();
            let better = match best {
                Some(_) => len > best_len,
                None => true,
            };
            if better {
                best = Some(j);
                best_len = len;
            }
        }
        j = j + 1;
    }
    best
}

/// Whether `file` matches one of `patterns`.
pub fn is_ignored(patterns: &Vec<String>, file: &str) -> (r: bool)
    ensures
        r == ignored(views(patterns@), file@),
{
    let mut k: usize = 0;
    while k < patterns.len()
        invariant
            k <= patterns.len(),
            forall|j: int| 0 <= j < k ==> !glob_match_spec(#[trigger] views(patterns@)[j], file@),
        decreases patterns.len() - k,
    {
        if glob_matches(patterns[k].as_str(), file) {
            proof {
                assert(glob_match_spec(views(patterns@)[k as int], file@));
            }
            return true;
        }
        k = k + 1;
    }
    false
}

/// The first configuration entry for `name`.
fn find_package_config(configs: &Vec<(String, PackageChangesetConfig)>, name: &str) -> (r: Option<usize>)
    ensures
        match r {
            Some(k) => k < configs@.len() && package_patterns(configs@, name@) == views(configs@[k as int].1.ignored_files@),
            None => package_patterns(configs@, name@).len() == 0,
        },
{
    let mut k: usize = 0;
    proof {
        assert(configs@.skip(0) =~= configs@);
    }
    while k < configs.len()
        invariant
            k <= configs.len(),
            package_patterns(configs@, name@) == package_patterns(configs@.skip(k as int), name@),
        decreases configs.len() - k,
    {
        proof {
            assert(configs@.skip(k as int).drop_first() =~= configs@.skip(k + 1));
        }
        if crate::text::str_eq(configs[k].0.as_str(), name) {
            return Some(k);
        }
        k = k + 1;
    }
    None
}

/// Whether package `i`'s own patterns ignore `file`.
fn package_ignores_file(
    root: &str,
    pkgs: &Vec<PackageInfo>,
    configs: &Vec<(String, PackageChangesetConfig)>,
    file: &str,
    i: usize,
) -> (r: bool)
    requires
        i < pkgs@.len(),
    ensures
        r == package_ignores(root@, pkgs@, configs@, file@, i as int),
{
    match find_package_config(configs, pkgs[i].name.as_str()) {
        Some(k) => {
            let rel = relative_dir(root, pkgs[i].path.as_str());
            let inner = match path_strip_prefix(file, rel.as_str()) {
                Some(rest) => rest,
                None => crate::text::owned(file),
            };
            is_ignored(&configs[k].1.ignored_files, inner.as_str())
        },
        None => {
            proof {
                let pats = package_patterns(configs@, pkgs@[i as int].name@);
                assert forall|j: int| !(0 <= j < pats.len() && #[trigger] glob_match_spec(pats[j], path_in_package(root@, pkgs@[i as int], file@))) by {}
            }
            false
        },
    }
}

/// Sorts changed files (paths relative to the project root) into the
/// packages whose directories hold them, the project outside any package,
/// and files that an ignore pattern matches: one of the project's, or one
/// of the owning package's own, matched against the path inside the package.
pub fn map_files_to_packages(
    project: &CargoProject,
    files: &Vec<String>,
    config: &RootChangesetConfig,
    package_configs: &Vec<(String, PackageChangesetConfig)>,
) -> (m: FileMapping)
    ensures
        views(m.ignored_files@) == ignored_files_spec(
            project.root@,
            project.packages@,
            package_configs@,
            views(config.ignored_files@),
            views(files@),
        ),
        views(m.project_files@) == project_files_spec(
            project.root@,
            project.packages@,
            views(config.ignored_files@),
            views(files@),
        ),
        m.affected_packages@ == affected_spec(
            project.root@,
            project.packages@,
            package_configs@,
            views(config.ignored_files@),
            views(files@),
            project.packages@.len() as int,
        ),
{
    let ghost cfgs = package_configs@;
    let ghost pats = views(config.ignored_files@);
    let ghost fs = views(files@);
    let ghost root = project.root@;
    let ghost pkgs = project.packages@;
    let mut ignored_files: Vec<String> = Vec::new();
    let mut project_files: Vec<String> = Vec::new();
    let mut owners: Vec<Option<usize>> = Vec::new();
    let mut i: usize = 0;
    while i < files.len()
        invariant
            i <= files.len(),
            fs == views(files@),
            pats == views(config.ignored_files@),
            root == project.root@,
            pkgs == project.packages@,
            cfgs == package_configs@,
            views(ignored_files@) == ignored_files_spec(root, pkgs, cfgs, pats, fs.take(i as int)),
            views(project_files@) == project_files_spec(root, pkgs, pats, fs.take(i as int)),
            owners@.len() == i,
            forall|f: int|
                0 <= f < i ==> match #[trigger] owners@[f] {
                    Some(o) => !ignored(pats, fs[f]) && is_owner(root, pkgs, fs[f], o as int) && !package_ignores(
                        root,
                        pkgs,
                        cfgs,
                        fs[f],
                        o as int,
                    ),
                    None => skipped(root, pkgs, cfgs, pats, fs[f]) || !has_owner(root, pkgs, fs[f]),
                },
        decreases files.len() - i,
    {
        proof {
            assert(fs.take(i + 1).drop_last() =~= fs.take(i as int));
            assert(fs.take(i + 1).last() == fs[i as int]);
        }
        let file = files[i].as_str();
        if is_ignored(&config.ignored_files, file) {
            push_string(&mut ignored_files, files[i].clone());
            owners.push(None);
        } else {
            let owner = find_owner(project.root.as_str(), &project.packages, file);
            match owner {
                None => {
                    proof {
                        assert(!skipped(root, pkgs, cfgs, pats, fs[i as int])) by {
                            if exists|o: int| #[trigger] is_owner(root, pkgs, fs[i as int], o) && package_ignores(root, pkgs, cfgs, fs[i as int], o) {
                                let o = choose|o: int| #[trigger] is_owner(root, pkgs, fs[i as int], o) && package_ignores(root, pkgs, cfgs, fs[i as int], o);
                                assert(owns(root, pkgs[o], fs[i as int]));
                            }
                        }
                    }
                    push_string(&mut project_files, files[i].clone());
                    owners.push(None);
                },
                Some(o) => {
                    if package_ignores_file(project.root.as_str(), &project.packages, package_configs, file, o) {
                        push_string(&mut ignored_files, files[i].clone());
                        owners.push(None);
                    } else {
                        proof {
                            assert(!skipped(root, pkgs, cfgs, pats, fs[i as int])) by {
                                if exists|o2: int| #[trigger] is_owner(root, pkgs, fs[i as int], o2) && package_ignores(root, pkgs, cfgs, fs[i as int], o2) {
                                    let o2 = choose|o2: int| #[trigger] is_owner(root, pkgs, fs[i as int], o2) && package_ignores(root, pkgs, cfgs, fs[i as int], o2);
                                    assert(o2 == o as int);
                                }
                            }
                        }
                        owners.push(owner);
                    }
                },
            }
        }
        i = i + 1;
    }
    proof {
        assert(fs.take(files@.len() as int) =~= fs);
    }
    let mut affected: Vec<PackageInfo> = Vec::new();
    let mut k: usize = 0;
    while k < project.packages.len()
        invariant
            k <= project.packages.len(),
            fs == views(files@),
            pats == views(config.ignored_files@),
            root == project.root@,
            pkgs == project.packages@,
            cfgs == package_configs@,
            owners@.len() == files@.len(),
            forall|f: int|
                0 <= f < files@.len() ==> match #[trigger] owners@[f] {
                    Some(o) => !ignored(pats, fs[f]) && is_owner(root, pkgs, fs[f], o as int) && !package_ignores(
                        root,
                        pkgs,
                        cfgs,
                        fs[f],
                        o as int,
                    ),
                    None => skipped(root, pkgs, cfgs, pats, fs[f]) || !has_owner(root, pkgs, fs[f]),
                },
            affected@ == affected_spec(root, pkgs, cfgs, pats, fs, k as int),
        decreases project.packages.len() - k,
    {
        let mut found = false;
        let mut f: usize = 0;
        while f < owners.len()
            invariant
                f <= owners.len(),
                k < pkgs.len(),
                owners@.len() == fs.len(),
                forall|g: int|
                    0 <= g < fs.len() ==> match #[trigger] owners@[g] {
                        Some(o) => !ignored(pats, fs[g]) && is_owner(root, pkgs, fs[g], o as int) && !package_ignores(
                            root,
                            pkgs,
                            cfgs,
                            fs[g],
                            o as int,
                        ),
                        None => skipped(root, pkgs, cfgs, pats, fs[g]) || !has_owner(root, pkgs, fs[g]),
                    },
                found ==> owns_some(root, pkgs, cfgs, pats, fs, k as int),
                !found ==> forall|g: int|
                    0 <= g < f ==> !(!ignored(pats, fs[g]) && #[trigger] is_owner(root, pkgs, fs[g], k as int)
                        && !package_ignores(root, pkgs, cfgs, fs[g], k as int)),
            decreases owners.len() - f,
        {
            match owners[f] {
                Some(o) => {
                    if o == k {
                        found = true;
                        proof {
                            assert(is_owner(root, pkgs, fs[f as int], k as int));
                        }
                    }
                },
                None => {},
            }
            proof {
                if !found {
                    match owners@[f as int] {
                        Some(o) => {
                            if !ignored(pats, fs[f as int]) && is_owner(root, pkgs, fs[f as int], k as int) {
                                assert(is_owner(root, pkgs, fs[f as int], o as int));
                                // two owners of the same file are the same package
                                assert(o as int == k as int);
                            }
                        },
                        None => {
                            if !ignored(pats, fs[f as int]) && is_owner(root, pkgs, fs[f as int], k as int)
                                && !package_ignores(root, pkgs, cfgs, fs[f as int], k as int) {
                                assert(owns(root, pkgs[k as int], fs[f as int]));
                                if exists|o: int| #[trigger] is_owner(root, pkgs, fs[f as int], o) && package_ignores(root, pkgs, cfgs, fs[f as int], o) {
                                    let o = choose|o: int| #[trigger] is_owner(root, pkgs, fs[f as int], o) && package_ignores(root, pkgs, cfgs, fs[f as int], o);
                                    assert(o == k as int);
                                }
                            }
                        },
                    }
                }
            }
            f = f + 1;
        }
        if found {
            affected.push(project.packages[k].clone());
        }
        k = k + 1;
    }
    FileMapping { affected_packages: affected, project_files, ignored_files }
}

} // verus!

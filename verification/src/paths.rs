//! Paths as the operations use them: text joined, compared and classified
//! by `std::path`.
use vstd::prelude::*;

verus! {

/// What `Path::join` yields for a base and a relative or absolute part.
pub uninterp spec fn path_join_spec(base: Seq<char>, part: Seq<char>) -> Seq<char>;

/// Calls `std::path::Path::join` on two UTF-8 paths; the contract claims
/// only that the result is the named function of the two texts.
#[verifier::external_body]
pub(crate) fn path_join(base: &str, part: &str) -> (r: String)
    ensures
        r@ == path_join_spec(base@, part@),
{
    std::path::Path::new(base).join(part).to_string_lossy().into_owned()
}

/// What `Path::starts_with` answers: whether the first path begins with the
/// components of the second.
pub uninterp spec fn path_starts_with_spec(path: Seq<char>, base: Seq<char>) -> bool;

/// Calls `std::path::Path::starts_with`; the contract claims only that the
/// answer is the named function of the two texts.
#[verifier::external_body]
pub(crate) fn path_starts_with(path: &str, base: &str) -> (r: bool)
    ensures
        r == path_starts_with_spec(path@, base@),
{
    std::path::Path::new(path).starts_with(base)
}

/// What `Path::extension` yields: the part of the file name after its last
/// `.`, if the file name has one that is not its first character.
pub uninterp spec fn path_extension_spec(path: Seq<char>) -> Option<Seq<char>>;

/// Calls `std::path::Path::extension`; the contract claims only that the
/// answer is the named function of the text.
#[verifier::external_body]
pub(crate) fn path_extension(path: &str) -> (r: Option<String>)
    ensures
        match r {
            Some(e) => path_extension_spec(path@) == Some(e@),
            None => path_extension_spec(path@) is None,
        },
{
    std::path::Path::new(path).extension().map(|e| e.to_string_lossy().into_owned())
}

/// A markdown file: one whose extension is `md`.
pub open spec fn is_markdown_spec(path: Seq<char>) -> bool {
    path_extension_spec(path) == Some("md"@)
}

/// Whether a path names a markdown file.
pub fn is_markdown_file(path: &str) -> (r: bool)
    ensures
        r == is_markdown_spec(path@),
{
    proof {
        reveal_strlit("md");
    }
    match path_extension(path) {
        Some(e) => crate::text::str_eq(e.as_str(), "md"),
        None => false,
    }
}

/// What `Path::strip_prefix` yields: the rest of `path` after the
/// components of `base`, if `path` starts with them.
pub uninterp spec fn path_strip_prefix_spec(path: Seq<char>, base: Seq<char>) -> Option<Seq<char>>;

/// Calls `std::path::Path::strip_prefix`; the contract claims only that the
/// answer is the named function of the two texts.
#[verifier::external_body]
pub(crate) fn path_strip_prefix(path: &str, base: &str) -> (r: Option<String>)
    ensures
        match r {
            Some(rest) => path_strip_prefix_spec(path@, base@) == Some(rest@),
            None => path_strip_prefix_spec(path@, base@) is None,
        },
{
    match std::path::Path::new(path).strip_prefix(base) {
        Ok(rest) => Some(rest.to_string_lossy().into_owned()),
        Err(_) => None,
    }
}

/// Whether `pattern` is a valid glob that matches `path`, as a
/// `globset::GlobSet` built from `globset::Glob::new(pattern)` answers it.
pub uninterp spec fn glob_match_spec(pattern: Seq<char>, path: Seq<char>) -> bool;

/// Whether `pattern` is a glob that `globset::GlobBuilder` accepts.
pub uninterp spec fn glob_valid_spec(pattern: Seq<char>) -> bool;

/// Calls `globset::Glob::new`, builds a one-pattern `globset::GlobSet` with
/// `GlobSetBuilder::add` and `build`, and asks `GlobSet::is_match`; a pattern
/// that is refused, or whose matcher cannot be built, matches nothing. The
/// contract claims only that the answer is the named function of the pattern
/// and the path.
#[verifier::external_body]
pub(crate) fn glob_matches(pattern: &str, path: &str) -> (r: bool)
    ensures
        r == glob_match_spec(pattern@, path@),
{
    let glob = match globset::Glob::new(pattern) {
        Ok(glob) => glob,
        Err(_) => return false,
    };
    let mut builder = globset::GlobSetBuilder::new();
    builder.add(glob);
    match builder.build() {
        Ok(set) => set.is_match(path),
        Err(_) => false,
    }
}

/// Declares `globset::Error`, the reason a glob pattern is refused.
#[verifier::external_type_specification]
#[verifier::external_body]
pub struct ExGlobError(globset::Error);

/// Calls `globset::GlobBuilder::new(pattern).build()`, keeping only its
/// error; the contract claims that it succeeds exactly on the patterns the
/// name `glob_valid_spec` holds for.
#[verifier::external_body]
pub(crate) fn glob_build(pattern: &str) -> (r: Result<(), globset::Error>)
    ensures
        r is Ok <==> glob_valid_spec(pattern@),
{
    match globset::GlobBuilder::new(pattern).build() {
        Ok(_) => Ok(()),
        Err(e) => Err(e),
    }
}

} // verus!

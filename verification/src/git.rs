//! What the operations learn from git: changed files, commits and tags.
use vstd::prelude::*;

verus! {

/// How a file changed between two trees.
#[derive(Debug, PartialEq, Eq, Structural, Clone, Copy, Hash)]
pub enum FileStatus {
    Added,
    Modified,
    Deleted,
    Renamed,
    Typechange,
}

/// A changed file; a renamed file also carries its former path.
#[derive(Debug, PartialEq, Eq)]
pub struct FileChange {
    pub path: String,
    pub status: FileStatus,
    pub old_path: Option<String>,
}

impl Clone for FileChange {
    fn clone(&self) -> (r: Self)
        ensures
            r == *self,
    {
        FileChange {
            path: self.path.clone(),
            status: self.status,
            old_path: match &self.old_path {
                Some(o) => Some(o.clone()),
                None => None,
            },
        }
    }
}

impl FileChange {
    pub fn new(path: String, status: FileStatus) -> (r: FileChange)
        ensures
            r.path == path,
            r.status == status,
            r.old_path is None,
    {
        FileChange { path, status, old_path: None }
    }

    pub fn renamed(old_path: String, path: String) -> (r: FileChange)
        ensures
            r.path == path,
            r.status == FileStatus::Renamed,
            r.old_path == Some(old_path),
    {
        FileChange { path, status: FileStatus::Renamed, old_path: Some(old_path) }
    }
}

/// A commit that was created.
#[derive(Debug, Clone, PartialEq, Eq)]
pub struct CommitInfo {
    pub sha: String,
    pub message: String,
}

/// A tag that was created.
#[derive(Debug, Clone, PartialEq, Eq)]
pub struct TagInfo {
    pub name: String,
    pub target_sha: String,
}

} // verus!

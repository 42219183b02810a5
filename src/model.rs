//! The records handed back to the frontend, each with a view over
//! mathematical sequences.
use vstd::prelude::*;

verus! {

/// A local branch.
#[derive(Debug, Clone, PartialEq, Eq)]
pub struct GitBranch {
    /// The name of the branch, without its namespace.
    pub name: String,
    /// Whether this is the currently checked-out branch.
    pub is_current: bool,
}

pub struct BranchView {
    pub name: Seq<char>,
    pub is_current: bool,
}

impl View for GitBranch {
    type V = BranchView;

    open spec fn view(&self) -> BranchView {
        BranchView { name: self.name@, is_current: self.is_current }
    }
}

/// A stash entry.
#[derive(Debug, Clone, PartialEq, Eq)]
pub struct GitStash {
    /// The position in the stash list, 0 for the most recent.
    pub index: usize,
    /// The stash message.
    pub message: String,
    /// The reflog selector naming where the stash was made.
    pub branch: String,
}

pub struct StashView {
    pub index: usize,
    pub message: Seq<char>,
    pub branch: Seq<char>,
}

impl View for GitStash {
    type V = StashView;

    open spec fn view(&self) -> StashView {
        StashView { index: self.index, message: self.message@, branch: self.branch@ }
    }
}

/// A configured remote.
#[derive(Debug, Clone, PartialEq, Eq)]
pub struct GitRemote {
    pub name: String,
    pub url: String,
}

pub struct RemoteView {
    pub name: Seq<char>,
    pub url: Seq<char>,
}

impl View for GitRemote {
    type V = RemoteView;

    open spec fn view(&self) -> RemoteView {
        RemoteView { name: self.name@, url: self.url@ }
    }
}

/// A file touched by a commit.
#[derive(Debug, Clone, PartialEq, Eq)]
pub struct GitCommitFile {
    pub path: String,
    /// The diff status letter, such as "A" or "M".
    pub status: String,
}

pub struct CommitFileView {
    pub path: Seq<char>,
    pub status: Seq<char>,
}

impl View for GitCommitFile {
    type V = CommitFileView;

    open spec fn view(&self) -> CommitFileView {
        CommitFileView { path: self.path@, status: self.status@ }
    }
}

/// A commit with its metadata.
#[derive(Debug, Clone, PartialEq, Eq)]
pub struct GitCommit {
    pub hash: String,
    pub author: String,
    pub author_email: String,
    /// The subject line.
    pub message: String,
    pub body: String,
    /// The author date, in UNIX seconds, as text.
    pub date: String,
    /// Parent hashes, first parent first.
    pub parents: Vec<String>,
    pub branches: Vec<String>,
    pub tags: Vec<String>,
}

pub struct CommitView {
    pub hash: Seq<char>,
    pub author: Seq<char>,
    pub author_email: Seq<char>,
    pub message: Seq<char>,
    pub body: Seq<char>,
    pub date: Seq<char>,
    pub parents: Seq<Seq<char>>,
    pub branches: Seq<Seq<char>>,
    pub tags: Seq<Seq<char>>,
}

impl View for GitCommit {
    type V = CommitView;

    open spec fn view(&self) -> CommitView {
        CommitView {
            hash: self.hash@,
            author: self.author@,
            author_email: self.author_email@,
            message: self.message@,
            body: self.body@,
            date: self.date@,
            parents: self.parents@.map_values(|x: String| x@),
            branches: self.branches@.map_values(|x: String| x@),
            tags: self.tags@.map_values(|x: String| x@),
        }
    }
}

/// The state of one path in the index or in the working tree.
#[derive(Debug, Clone, PartialEq, Eq)]
pub struct GitStatusFile {
    pub path: String,
    /// Two characters: the index letter then a blank for a staged entry,
    /// a blank then the working-tree letter for an unstaged one.
    pub status: String,
    pub is_staged: bool,
}

pub struct StatusFileView {
    pub path: Seq<char>,
    pub status: Seq<char>,
    pub is_staged: bool,
}

impl View for GitStatusFile {
    type V = StatusFileView;

    open spec fn view(&self) -> StatusFileView {
        StatusFileView { path: self.path@, status: self.status@, is_staged: self.is_staged }
    }
}

/// The user's SSH key pair.
#[derive(Debug, Clone, PartialEq, Eq)]
pub struct SshKeyInfo {
    /// The text of the public key, empty when there is no key.
    pub public_key: String,
    pub has_key: bool,
    /// Where the private key is, or would be.
    pub path: String,
}

} // verus!

//! The soul's repository: one local working tree, and the places that its history is pushed
//! to. What runs `git` stands outside; what it is asked, and what its answers mean, stands
//! here.

use vstd::prelude::*;

use crate::text::same_text;

pub mod git;
pub mod gitcore;
pub mod gitlawb;
pub mod multi;

verus! {

/// A path inside the soul, such as `memory/log.md`.
#[derive(Debug, PartialEq, Eq, Hash)]
pub struct RepoPath(pub String);

impl View for RepoPath {
    type V = Seq<char>;

    open spec fn view(&self) -> Seq<char> {
        self.0@
    }
}

impl DeepView for RepoPath {
    type V = Seq<char>;

    open spec fn deep_view(&self) -> Seq<char> {
        self.0@
    }
}

impl Clone for RepoPath {
    fn clone(&self) -> (r: RepoPath)
        ensures
            r == *self,
    {
        RepoPath(self.0.clone())
    }
}

/// The hash of a commit.
#[derive(Debug, PartialEq, Eq)]
pub struct CommitId(pub String);

/// A path of the working tree that differs from the last commit.
#[derive(Debug, PartialEq, Eq)]
pub struct RepoChange {
    /// The two characters of the status, such as `??` for an untracked path.
    pub code: String,
    pub path: RepoPath,
}

/// What a [`RepoChange`] holds.
#[verifier::ext_equal]
pub struct ChangeV {
    pub code: Seq<char>,
    pub path: Seq<char>,
}

impl View for RepoChange {
    type V = ChangeV;

    open spec fn view(&self) -> ChangeV {
        ChangeV { code: self.code@, path: self.path@ }
    }
}

impl DeepView for RepoChange {
    type V = ChangeV;

    open spec fn deep_view(&self) -> ChangeV {
        self@
    }
}

/// A path that the last commit does not hold.
pub open spec fn untracked(c: ChangeV) -> bool {
    c.code == "??"@
}

impl RepoChange {
    /// Whether the path has no committed version: it is restored by deleting it.
    pub fn is_untracked(&self) -> (r: bool)
        ensures
            r == untracked(self@),
    {
        same_text(self.code.as_str(), "??")
    }
}

/// Who a commit is by, and why it was made.
#[derive(Debug)]
pub struct CommitMeta {
    pub message: String,
    /// The identity that the commit is attributed to.
    pub author_did: String,
}

/// What a [`CommitMeta`] holds.
#[verifier::ext_equal]
pub struct MetaV {
    pub message: Seq<char>,
    pub author_did: Seq<char>,
}

impl View for CommitMeta {
    type V = MetaV;

    open spec fn view(&self) -> MetaV {
        MetaV { message: self.message@, author_did: self.author_did@ }
    }
}

/// A file that git does not know yet is told by its two marks alone.
pub proof fn a_new_file_is_told_by_its_marks(path: Seq<char>, code: Seq<char>)
    ensures
        untracked(ChangeV { code: seq!['?', '?'], path }),
        code.len() != 2 || code[0] != '?' || code[1] != '?' ==> !untracked(ChangeV { code, path }),
{
    reveal_strlit("??");
    assert(seq!['?', '?'] =~= "??"@);
}

} // verus!

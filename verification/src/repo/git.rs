//! A soul in a plain repository.

use vstd::prelude::*;

use crate::repo::gitcore::GitCore;

verus! {

/// A soul that is pushed with an ordinary `git push`, where it is pushed at all.
#[derive(Debug)]
pub struct PlainGitRepo {
    pub core: GitCore,
    pub remote: Option<String>,
}

impl PlainGitRepo {
    /// A repository that stays local.
    pub fn new(workdir: String, author_did: String) -> (r: PlainGitRepo)
        ensures
            r.core.workdir == workdir,
            r.core.default_author == author_did,
            r.remote is None,
    {
        PlainGitRepo { core: GitCore::new(workdir, author_did), remote: None }
    }
}

} // verus!

//! A soul whose pushes are signed by the `git-remote-gitlawb` helper.

use vstd::prelude::*;

use crate::paths::{join_path, joined_path};
use crate::repo::gitcore::GitCore;
use crate::stimuli::pairs_view;
use crate::text::{contains, has_part, lowered, owned, to_ascii_lowercase};

verus! {

/// What the text of a push that may succeed later holds.
pub open spec fn transient_signs() -> Seq<Seq<char>> {
    seq![
        "500"@,
        "502"@,
        "503"@,
        "504"@,
        "internal server error"@,
        "bad gateway"@,
        "service unavailable"@,
        "gateway timeout"@,
        "unexpected disconnect"@,
        "hung up"@,
        "sideband"@,
        "early eof"@,
        "rpc failed"@,
        "timed out"@,
        "timeout"@,
        "connection reset"@,
        "connection refused"@,
        "broken pipe"@,
        "could not read from remote"@,
        "failed to connect"@,
        "temporarily unavailable"@,
    ]
}

/// A failure that a later try may not meet: it shows one of the signs, in either case.
pub open spec fn is_transient(msg: Seq<char>) -> bool {
    exists|i: int|
        0 <= i < transient_signs().len() && has_part(
            lowered(msg),
            #[trigger] transient_signs()[i],
        )
}

/// Whether a push that failed is worth another try. Everything without a clear sign is taken
/// as permanent.
pub fn is_transient_push_error(msg: &str) -> (r: bool)
    ensures
        r == is_transient(msg@),
{
    let m = to_ascii_lowercase(msg);
    let signs: Vec<&str> = vec![
        "500",
        "502",
        "503",
        "504",
        "internal server error",
        "bad gateway",
        "service unavailable",
        "gateway timeout",
        "unexpected disconnect",
        "hung up",
        "sideband",
        "early eof",
        "rpc failed",
        "timed out",
        "timeout",
        "connection reset",
        "connection refused",
        "broken pipe",
        "could not read from remote",
        "failed to connect",
        "temporarily unavailable",
    ];
    let ghost all = transient_signs();
    assert(signs@.len() == all.len());
    assert(forall|k: int| 0 <= k < all.len() ==> (#[trigger] signs@[k])@ == all[k]);
    let mut i: usize = 0;
    while i < signs.len()
        invariant
            i <= signs@.len(),
            all == transient_signs(),
            signs@.len() == all.len(),
            forall|k: int| 0 <= k < all.len() ==> (#[trigger] signs@[k])@ == all[k],
            m@ == lowered(msg@),
            forall|k: int| 0 <= k < i ==> !has_part(m@, #[trigger] all[k]),
        decreases signs@.len() - i,
    {
        if contains(m.as_str(), signs[i]) {
            assert(has_part(m@, all[i as int]));
            return true;
        }
        i += 1;
    }
    false
}

/// What the helper is told of a signed push.
pub open spec fn signed_env(key_path: Seq<char>, node: Seq<char>) -> Seq<(Seq<char>, Seq<char>)> {
    seq![("GITLAWB_KEY"@, key_path), ("GITLAWB_NODE"@, node)]
}

/// What the helper is told of a signed push: where the key is, and which node to push to.
pub fn signed_push_env(key_path: &str, node: &str) -> (r: Vec<(String, String)>)
    ensures
        pairs_view(r@) == signed_env(key_path@, node@),
{
    let mut env: Vec<(String, String)> = Vec::new();
    env.push((owned("GITLAWB_KEY"), owned(key_path)));
    env.push((owned("GITLAWB_NODE"), owned(node)));
    assert(pairs_view(env@) =~= signed_env(key_path@, node@));
    env
}

/// A soul with one signed remote.
#[derive(Debug)]
pub struct GitlawbRepo {
    pub core: GitCore,
    /// A `gitlawb://` URL.
    pub remote: String,
    /// Where the key that signs is kept. The harness alone reads it.
    pub identity_dir: String,
    pub node: String,
}

impl GitlawbRepo {
    pub fn new(
        workdir: String,
        author_did: String,
        remote: String,
        identity_dir: String,
        node: String,
    ) -> (r: GitlawbRepo)
        ensures
            r.core.workdir == workdir,
            r.core.default_author == author_did,
            r.remote == remote,
            r.identity_dir == identity_dir,
            r.node == node,
    {
        GitlawbRepo { core: GitCore::new(workdir, author_did), remote, identity_dir, node }
    }

    /// What the helper is told of a push of this soul.
    pub fn push_env(&self) -> (r: Vec<(String, String)>)
        ensures
            pairs_view(r@) == signed_env(
                joined_path(self.identity_dir@, "identity.pem"@),
                self.node@,
            ),
    {
        let key = join_path(self.identity_dir.as_str(), "identity.pem");
        signed_push_env(key.as_str(), self.node.as_str())
    }
}

/// A failure passes by itself where its text, in whatever case, tells of the server or the line.
pub proof fn a_failure_of_the_line_passes(msg: Seq<char>)
    ensures
        is_transient(msg) <==> {
            ||| has_part(lowered(msg), "500"@)
            ||| has_part(lowered(msg), "502"@)
            ||| has_part(lowered(msg), "503"@)
            ||| has_part(lowered(msg), "504"@)
            ||| has_part(lowered(msg), "internal server error"@)
            ||| has_part(lowered(msg), "bad gateway"@)
            ||| has_part(lowered(msg), "service unavailable"@)
            ||| has_part(lowered(msg), "gateway timeout"@)
            ||| has_part(lowered(msg), "unexpected disconnect"@)
            ||| has_part(lowered(msg), "hung up"@)
            ||| has_part(lowered(msg), "sideband"@)
            ||| has_part(lowered(msg), "early eof"@)
            ||| has_part(lowered(msg), "rpc failed"@)
            ||| has_part(lowered(msg), "timed out"@)
            ||| has_part(lowered(msg), "timeout"@)
            ||| has_part(lowered(msg), "connection reset"@)
            ||| has_part(lowered(msg), "connection refused"@)
            ||| has_part(lowered(msg), "broken pipe"@)
            ||| has_part(lowered(msg), "could not read from remote"@)
            ||| has_part(lowered(msg), "failed to connect"@)
            ||| has_part(lowered(msg), "temporarily unavailable"@)
        },
{
    let t = lowered(msg);
    assert(transient_signs()[0] == "500"@);
    assert(transient_signs()[1] == "502"@);
    assert(transient_signs()[2] == "503"@);
    assert(transient_signs()[3] == "504"@);
    assert(transient_signs()[4] == "internal server error"@);
    assert(transient_signs()[5] == "bad gateway"@);
    assert(transient_signs()[6] == "service unavailable"@);
    assert(transient_signs()[7] == "gateway timeout"@);
    assert(transient_signs()[8] == "unexpected disconnect"@);
    assert(transient_signs()[9] == "hung up"@);
    assert(transient_signs()[10] == "sideband"@);
    assert(transient_signs()[11] == "early eof"@);
    assert(transient_signs()[12] == "rpc failed"@);
    assert(transient_signs()[13] == "timed out"@);
    assert(transient_signs()[14] == "timeout"@);
    assert(transient_signs()[15] == "connection reset"@);
    assert(transient_signs()[16] == "connection refused"@);
    assert(transient_signs()[17] == "broken pipe"@);
    assert(transient_signs()[18] == "could not read from remote"@);
    assert(transient_signs()[19] == "failed to connect"@);
    assert(transient_signs()[20] == "temporarily unavailable"@);
    if is_transient(msg) {
        let i = choose|i: int|
            0 <= i < transient_signs().len() && has_part(t, #[trigger] transient_signs()[i]);
        assert(has_part(t, transient_signs()[i]));
    }
}

/// A signed push is handed its key and its node.
pub proof fn a_signed_push_has_its_key_and_node(key_path: Seq<char>, node: Seq<char>)
    ensures
        signed_env(key_path, node).len() == 2,
        signed_env(key_path, node).contains(("GITLAWB_KEY"@, key_path)),
        signed_env(key_path, node).contains(("GITLAWB_NODE"@, node)),
{
    assert(signed_env(key_path, node)[0] == ("GITLAWB_KEY"@, key_path));
    assert(signed_env(key_path, node)[1] == ("GITLAWB_NODE"@, node));
}

} // verus!

//! What `git` is asked, and what its answers mean.

use vstd::prelude::*;

use crate::error::{error_detail, DackError};
use crate::paths::{join_path, joined_path};
use crate::repo::{untracked, ChangeV, CommitId, CommitMeta, RepoChange, RepoPath};
use crate::text::{
    chars_of, has_part, has_prefix, join, joined, line_seq, lines, occurs, occurs_at, owned,
    push_one, push_two, same_text, string_of, text_before, text_lt, text_lt_irreflexive, text_lt_total,
    text_lt_transitive, trim, trimmed,
};

verus! {

/// A local working tree.
#[derive(Debug)]
pub struct GitCore {
    pub workdir: String,
    /// Whom the harness's own commits are attributed to.
    pub default_author: String,
}

// ── Commands ────────────────────────────────────────────────────────────────────────────

/// How a commit is attributed without any configuration of the machine.
pub open spec fn author_args(did: Seq<char>) -> Seq<Seq<char>> {
    seq!["-c"@, "user.name="@ + did, "-c"@, "user.email="@ + did + "@dack"@]
}

/// The paths of a list.
pub open spec fn paths_of(paths: Seq<RepoPath>) -> Seq<Seq<char>> {
    paths.map_values(|p: RepoPath| p@)
}

/// A command on paths.
pub open spec fn on_paths(words: Seq<Seq<char>>, paths: Seq<Seq<char>>) -> Seq<Seq<char>> {
    words + seq!["--"@] + paths
}

/// The commit of paths.
pub open spec fn commit_words(did: Seq<char>, message: Seq<char>) -> Seq<Seq<char>> {
    author_args(did) + seq!["commit"@, "-m"@, message]
}

fn attributed(did: &str) -> (r: Vec<String>)
    ensures
        r.deep_view() == author_args(did@),
{
    let mut name = owned("user.name=");
    name.append(did);
    let mut email = owned("user.email=");
    email.append(did);
    email.append("@dack");
    let mut out: Vec<String> = Vec::new();
    assert(out.deep_view() =~= Seq::empty());
    push_two(&mut out, "-c", name.as_str());
    push_two(&mut out, "-c", email.as_str());
    assert(out.deep_view() =~= author_args(did@));
    out
}

fn push_paths(out: &mut Vec<String>, paths: &Vec<RepoPath>)
    ensures
        final(out).deep_view() == on_paths(old(out).deep_view(), paths_of(paths@)),
{
    let ghost start = out.deep_view();
    let ghost all = paths_of(paths@);
    push_one(out, "--");
    let mut i: usize = 0;
    assert(out.deep_view() =~= start + seq!["--"@] + all.take(0));
    while i < paths.len()
        invariant
            i <= paths@.len(),
            all == paths_of(paths@),
            out.deep_view() == start + seq!["--"@] + all.take(i as int),
        decreases paths@.len() - i,
    {
        push_one(out, paths[i].0.as_str());
        assert(all.take(i + 1) =~= all.take(i as int).push(paths@[i as int]@));
        assert(out.deep_view() =~= start + seq!["--"@] + all.take(i + 1));
        i += 1;
    }
    assert(all.take(i as int) =~= all);
}

fn one_path(path: &RepoPath) -> (r: Vec<RepoPath>)
    ensures
        paths_of(r@) == seq![path@],
{
    let mut v: Vec<RepoPath> = Vec::new();
    v.push(path.clone());
    assert(paths_of(v@) =~= seq![path@]);
    v
}

/// The error of a command that failed.
pub open spec fn git_failure(args: Seq<Seq<char>>, stderr: Seq<char>) -> Seq<char> {
    "git "@ + joined(args, " "@) + ": "@ + trimmed(stderr)
}

/// What a `git` command gave back: what it printed, or what it complained of.
pub fn git_answer(args: &Vec<String>, success: bool, stdout: String, stderr: &str) -> (r: Result<
    String,
    DackError,
>)
    ensures
        success ==> r == Ok::<String, DackError>(stdout),
        !success ==> r is Err && r->Err_0 is Repo && error_detail(r->Err_0) == git_failure(
            args.deep_view(),
            stderr@,
        ),
{
    if success {
        return Ok(stdout);
    }
    let mut out = owned("git ");
    out.append(join(args, " ").as_str());
    out.append(": ");
    out.append(trim(stderr).as_str());
    Err(DackError::Repo(out))
}

/// What stands between two steps of a change: where nothing was staged, no commit is made.
pub fn nothing_staged(out: &str) -> (r: bool)
    ensures
        r == (trimmed(out@).len() == 0),
{
    trim(out).as_str().is_empty()
}

/// The hash that `rev-parse` printed.
pub fn commit_id(out: &str) -> (r: CommitId)
    ensures
        r.0@ == trimmed(out@),
{
    CommitId(trim(out))
}

impl GitCore {
    pub fn new(workdir: String, default_author: String) -> (r: GitCore)
        ensures
            r.workdir == workdir,
            r.default_author == default_author,
    {
        GitCore { workdir, default_author }
    }

    /// The file of a path.
    pub fn file(&self, path: &RepoPath) -> (r: String)
        ensures
            r@ == joined_path(self.workdir@, path@),
    {
        join_path(self.workdir.as_str(), path.0.as_str())
    }

    /// `git`'s own arguments in front of a command.
    pub fn argv(&self, args: &Vec<String>) -> (r: Vec<String>)
        ensures
            r.deep_view() == seq!["-C"@, self.workdir@] + args.deep_view(),
    {
        let mut out: Vec<String> = Vec::new();
        assert(out.deep_view() =~= Seq::empty());
        push_two(&mut out, "-C", self.workdir.as_str());
        crate::text::push_from(&mut out, args, 0);
        assert(args.deep_view().skip(0) =~= args.deep_view());
        assert(out.deep_view() =~= seq!["-C"@, self.workdir@] + args.deep_view());
        out
    }

    /// Asks for the hash of the last commit.
    pub fn head_args() -> (r: Vec<String>)
        ensures
            r.deep_view() == seq!["rev-parse"@, "HEAD"@],
    {
        let mut out: Vec<String> = Vec::new();
        assert(out.deep_view() =~= Seq::empty());
        push_two(&mut out, "rev-parse", "HEAD");
        assert(out.deep_view() =~= seq!["rev-parse"@, "HEAD"@]);
        out
    }

    /// Stages a file that was written.
    pub fn add_args(path: &RepoPath) -> (r: Vec<String>)
        ensures
            r.deep_view() == on_paths(seq!["add"@], seq![path@]),
    {
        let mut out: Vec<String> = Vec::new();
        assert(out.deep_view() =~= Seq::empty());
        push_one(&mut out, "add");
        assert(out.deep_view() =~= seq!["add"@]);
        push_paths(&mut out, &one_path(path));
        out
    }

    /// Asks what is staged of a file.
    pub fn staged_args(path: &RepoPath) -> (r: Vec<String>)
        ensures
            r.deep_view() == on_paths(seq!["status"@, "--porcelain"@], seq![path@]),
    {
        let mut out: Vec<String> = Vec::new();
        assert(out.deep_view() =~= Seq::empty());
        push_two(&mut out, "status", "--porcelain");
        assert(out.deep_view() =~= seq!["status"@, "--porcelain"@]);
        push_paths(&mut out, &one_path(path));
        out
    }

    /// Commits one file.
    pub fn commit_args(path: &RepoPath, commit: &CommitMeta) -> (r: Vec<String>)
        ensures
            r.deep_view() == on_paths(
                commit_words(commit@.author_did, commit@.message),
                seq![path@],
            ),
    {
        Self::commit_paths_args(&one_path(path), commit)
    }

    /// Stages paths, whether they are new, changed or gone.
    pub fn add_paths_args(paths: &Vec<RepoPath>) -> (r: Vec<String>)
        ensures
            r.deep_view() == on_paths(seq!["add"@, "-A"@], paths_of(paths@)),
    {
        let mut out: Vec<String> = Vec::new();
        assert(out.deep_view() =~= Seq::empty());
        push_two(&mut out, "add", "-A");
        assert(out.deep_view() =~= seq!["add"@, "-A"@]);
        push_paths(&mut out, paths);
        out
    }

    /// Asks what is staged of paths.
    pub fn staged_paths_args(paths: &Vec<RepoPath>) -> (r: Vec<String>)
        ensures
            r.deep_view() == on_paths(
                seq!["diff"@, "--cached"@, "--name-only"@],
                paths_of(paths@),
            ),
    {
        let mut out: Vec<String> = Vec::new();
        assert(out.deep_view() =~= Seq::empty());
        push_two(&mut out, "diff", "--cached");
        push_one(&mut out, "--name-only");
        assert(out.deep_view() =~= seq!["diff"@, "--cached"@, "--name-only"@]);
        push_paths(&mut out, paths);
        out
    }

    /// Commits paths, attributed to the author of the commit.
    pub fn commit_paths_args(paths: &Vec<RepoPath>, commit: &CommitMeta) -> (r: Vec<String>)
        ensures
            r.deep_view() == on_paths(
                commit_words(commit@.author_did, commit@.message),
                paths_of(paths@),
            ),
    {
        let mut out = attributed(commit.author_did.as_str());
        push_two(&mut out, "commit", "-m");
        push_one(&mut out, commit.message.as_str());
        assert(out.deep_view() =~= commit_words(commit@.author_did, commit@.message));
        push_paths(&mut out, paths);
        out
    }

    /// Asks for everything that differs from the last commit.
    pub fn status_args() -> (r: Vec<String>)
        ensures
            r.deep_view() == seq!["status"@, "--porcelain"@, "--untracked-files=all"@],
    {
        let mut out: Vec<String> = Vec::new();
        assert(out.deep_view() =~= Seq::empty());
        push_two(&mut out, "status", "--porcelain");
        push_one(&mut out, "--untracked-files=all");
        assert(out.deep_view() =~= seq!["status"@, "--porcelain"@, "--untracked-files=all"@]);
        out
    }

    /// Asks for the last two commits of a file.
    pub fn history_args(path: &RepoPath) -> (r: Vec<String>)
        ensures
            r.deep_view() == on_paths(
                seq!["log"@, "-n"@, "2"@, "--format=%H"@],
                seq![path@],
            ),
    {
        let mut out: Vec<String> = Vec::new();
        assert(out.deep_view() =~= Seq::empty());
        push_two(&mut out, "log", "-n");
        push_two(&mut out, "2", "--format=%H");
        assert(out.deep_view() =~= seq!["log"@, "-n"@, "2"@, "--format=%H"@]);
        push_paths(&mut out, &one_path(path));
        out
    }

    /// Asks for the branch that is checked out.
    pub fn branch_args() -> (r: Vec<String>)
        ensures
            r.deep_view() == seq!["rev-parse"@, "--abbrev-ref"@, "HEAD"@],
    {
        let mut out: Vec<String> = Vec::new();
        assert(out.deep_view() =~= Seq::empty());
        push_two(&mut out, "rev-parse", "--abbrev-ref");
        push_one(&mut out, "HEAD");
        assert(out.deep_view() =~= seq!["rev-parse"@, "--abbrev-ref"@, "HEAD"@]);
        out
    }

    /// Takes a file back to the version before the last commit that touched it; a file that
    /// one commit alone touched is removed. `history` is what [`history_args`] printed.
    ///
    /// [`history_args`]: GitCore::history_args
    pub fn revert_args(path: &RepoPath, history: &str) -> (r: Vec<String>)
        ensures
            r.deep_view() == revert_words(nonempty(line_seq(history@)), path@),
    {
        let hashes = nonempty_lines(history);
        let ghost h = nonempty(line_seq(history@));
        assert(h.len() == hashes@.len());
        let mut out: Vec<String> = Vec::new();
        assert(out.deep_view() =~= Seq::empty());
        if hashes.len() >= 2 {
            assert(h[1] == hashes@[1]@);
            push_two(&mut out, "checkout", hashes[1].as_str());
            assert(out.deep_view() =~= seq!["checkout"@, h[1]]);
        } else {
            push_two(&mut out, "rm", "-f");
            assert(out.deep_view() =~= seq!["rm"@, "-f"@]);
        }
        push_paths(&mut out, &one_path(path));
        out
    }

    /// The commit of a file that was taken back.
    pub fn revert_commit(&self, path: &RepoPath) -> (r: CommitMeta)
        ensures
            r@.message == "revert malformed "@ + path@,
            r@.author_did == self.default_author@,
    {
        let mut message = owned("revert malformed ");
        message.append(path.0.as_str());
        CommitMeta { message, author_did: self.default_author.clone() }
    }
}

/// The lines that hold something.
pub open spec fn nonempty(l: Seq<Seq<char>>) -> Seq<Seq<char>>
    decreases l.len(),
{
    if l.len() == 0 {
        Seq::empty()
    } else if l.last().len() == 0 {
        nonempty(l.drop_last())
    } else {
        nonempty(l.drop_last()).push(l.last())
    }
}

/// How a file is taken back, given the commits that touched it.
pub open spec fn revert_words(hashes: Seq<Seq<char>>, path: Seq<char>) -> Seq<Seq<char>> {
    if hashes.len() >= 2 {
        on_paths(seq!["checkout"@, hashes[1]], seq![path])
    } else {
        on_paths(seq!["rm"@, "-f"@], seq![path])
    }
}

fn nonempty_lines(s: &str) -> (r: Vec<String>)
    ensures
        r.deep_view() == nonempty(line_seq(s@)),
{
    let l = lines(s);
    let ghost all = line_seq(s@);
    let mut out: Vec<String> = Vec::new();
    let mut i: usize = 0;
    assert(all.len() == l@.len());
    assert(all.take(0) =~= Seq::empty());
    assert(out.deep_view() =~= Seq::empty());
    while i < l.len()
        invariant
            i <= l@.len(),
            all == l.deep_view(),
            out.deep_view() == nonempty(all.take(i as int)),
        decreases l@.len() - i,
    {
        proof {
            assert(all.take(i + 1).drop_last() =~= all.take(i as int));
            assert(all.take(i + 1).last() == l@[i as int]@);
        }
        let ghost o = out.deep_view();
        if !l[i].as_str().is_empty() {
            out.push(l[i].clone());
            assert(out.deep_view() =~= o.push(l@[i as int]@));
        }
        i += 1;
    }
    assert(all.take(i as int) =~= all);
    out
}

// ── Restoring ───────────────────────────────────────────────────────────────────────────

/// How a change is undone.
#[derive(Debug)]
pub enum Restore {
    /// The file is deleted.
    Remove(String),
    /// `git` is run with these arguments.
    Checkout(Vec<String>),
}

impl GitCore {
    /// How a path is taken back to the last commit: an untracked one is deleted, for the
    /// commit holds no version of it.
    pub fn restore_plan(&self, change: &RepoChange) -> (r: Restore)
        ensures
            untracked(change@) ==> r is Remove && r->Remove_0@ == joined_path(
                self.workdir@,
                change@.path,
            ),
            !untracked(change@) ==> r is Checkout && r->Checkout_0.deep_view() == on_paths(
                seq!["checkout"@, "HEAD"@],
                seq![change@.path],
            ),
    {
        if change.is_untracked() {
            return Restore::Remove(self.file(&change.path));
        }
        let mut out: Vec<String> = Vec::new();
        assert(out.deep_view() =~= Seq::empty());
        push_two(&mut out, "checkout", "HEAD");
        assert(out.deep_view() =~= seq!["checkout"@, "HEAD"@]);
        push_paths(&mut out, &one_path(&change.path));
        Restore::Checkout(out)
    }
}

// ── Pushing ─────────────────────────────────────────────────────────────────────────────

/// Settings of one command.
pub open spec fn config_words(config: Seq<Seq<char>>) -> Seq<Seq<char>>
    decreases config.len(),
{
    if config.len() == 0 {
        Seq::empty()
    } else {
        config_words(config.drop_last()) + seq!["-c"@, config.last()]
    }
}

/// The push of the branch that is checked out.
pub open spec fn push_words(
    remote: Seq<char>,
    branch_out: Seq<char>,
    config: Seq<Seq<char>>,
) -> Seq<Seq<char>> {
    config_words(config) + seq!["push"@, remote, "HEAD:refs/heads/"@ + trimmed(branch_out)]
}

impl GitCore {
    /// Pushes the branch that is checked out. `branch_out` is what [`branch_args`] printed.
    ///
    /// [`branch_args`]: GitCore::branch_args
    pub fn push_args(remote: &str, branch_out: &str, config: &Vec<String>) -> (r: Vec<String>)
        ensures
            r.deep_view() == push_words(remote@, branch_out@, config.deep_view()),
    {
        let ghost all = config.deep_view();
        let mut out: Vec<String> = Vec::new();
        let mut i: usize = 0;
        assert(all.take(0) =~= Seq::empty());
        assert(out.deep_view() =~= Seq::empty());
        while i < config.len()
            invariant
                i <= config@.len(),
                all == config.deep_view(),
                out.deep_view() == config_words(all.take(i as int)),
            decreases config@.len() - i,
        {
            proof {
                assert(all.take(i + 1).drop_last() =~= all.take(i as int));
                assert(all.take(i + 1).last() == config@[i as int]@);
            }
            push_two(&mut out, "-c", config[i].as_str());
            i += 1;
        }
        assert(all.take(i as int) =~= all);
        let mut refspec = owned("HEAD:refs/heads/");
        refspec.append(trim(branch_out).as_str());
        push_two(&mut out, "push", remote);
        push_one(&mut out, refspec.as_str());
        assert(out.deep_view() =~= push_words(remote@, branch_out@, all));
        out
    }
}

// ── The status ──────────────────────────────────────────────────────────────────────────

/// What follows the last occurrence of `p` at or before position `k`; the whole where there is
/// none.
pub open spec fn after_last(s: Seq<char>, p: Seq<char>, k: int) -> Seq<char>
    decreases k + 1,
{
    if k < 0 {
        s
    } else if occurs_at(s, p, k) {
        s.skip(k + p.len())
    } else {
        after_last(s, p, k - 1)
    }
}

/// `s` without the quotes around it.
pub open spec fn unquoted(s: Seq<char>) -> Seq<char>
    decreases s.len(),
{
    if s.len() > 0 && s[0] == '"' {
        unquoted(s.skip(1))
    } else if s.len() > 0 && s.last() == '"' {
        unquoted(s.drop_last())
    } else {
        s
    }
}

/// A line of the status: two characters, a space and a path. A rename names both paths, and
/// the new one is what changed. A path with special characters is quoted.
pub open spec fn change_of(line: Seq<char>) -> Option<ChangeV> {
    if line.len() < 4 {
        None
    } else {
        let rest = line.skip(3);
        Some(
            ChangeV {
                code: line.take(2),
                path: unquoted(trimmed(after_last(rest, " -> "@, rest.len() as int))),
            },
        )
    }
}

/// The changes of a status.
pub open spec fn changes_of(l: Seq<Seq<char>>) -> Seq<ChangeV>
    decreases l.len(),
{
    if l.len() == 0 {
        Seq::empty()
    } else {
        match change_of(l.last()) {
            Some(c) => changes_of(l.drop_last()).push(c),
            None => changes_of(l.drop_last()),
        }
    }
}

/// A line begins with plain characters, as every line of a status does.
pub open spec fn plain_head(line: Seq<char>) -> bool {
    forall|j: int| 0 <= j < 3 && j < line.len() ==> #[trigger] line[j] <= '\u{7f}'
}

/// What `git status --porcelain` can have printed.
pub open spec fn porcelain(out: Seq<char>) -> bool {
    forall|i: int| 0 <= i < line_seq(out).len() ==> plain_head(#[trigger] line_seq(out)[i])
}

fn has_plain_head(line: &str) -> (r: bool)
    ensures
        r == plain_head(line@),
{
    let v = chars_of(line);
    let mut j: usize = 0;
    while j < 3 && j < v.len()
        invariant
            j <= 3,
            j <= v@.len(),
            v@ == line@,
            forall|k: int| 0 <= k < j ==> #[trigger] line@[k] <= '\u{7f}',
        decreases 3 - j,
    {
        let plain = '\u{7f}' >= v[j];
        if !plain {
            assert(!(line@[j as int] <= '\u{7f}'));
            return false;
        }
        j += 1;
    }
    true
}

/// Whether a text can be read as a status.
pub fn is_porcelain(out: &str) -> (r: bool)
    ensures
        r == porcelain(out@),
{
    let l = lines(out);
    let ghost all = line_seq(out@);
    assert(all.len() == l@.len());
    let mut i: usize = 0;
    while i < l.len()
        invariant
            i <= l@.len(),
            all == l.deep_view(),
            all == line_seq(out@),
            forall|k: int| 0 <= k < i ==> plain_head(#[trigger] all[k]),
        decreases l@.len() - i,
    {
        assert(all[i as int] == l@[i as int]@);
        if !has_plain_head(l[i].as_str()) {
            return false;
        }
        i += 1;
    }
    true
}

fn read_after_last(v: &Vec<char>, from: usize) -> (r: String)
    requires
        from <= v@.len(),
    ensures
        r@ == after_last(v@.skip(from as int), " -> "@, v@.len() - from),
{
    let ghost rest = v@.skip(from as int);
    let ghost arrow = " -> "@;
    let p = chars_of(" -> ");
    let n: usize = v.len();
    let mut k: usize = n - from;
    loop
        invariant
            n == v@.len(),
            from <= n,
            k <= v@.len() - from,
            rest == v@.skip(from as int),
            p@ == arrow,
            arrow == " -> "@,
            after_last(rest, arrow, v@.len() - from) == after_last(rest, arrow, k as int),
        decreases k,
    {
        let hit = occurs(v, &p, from + k);
        assert(hit == occurs_at(rest, arrow, k as int)) by {
            if occurs_at(v@, arrow, from + k) {
                assert(rest.subrange(k as int, k + arrow.len()) =~= v@.subrange(
                    from + k,
                    from + k + arrow.len(),
                ));
            }
            if occurs_at(rest, arrow, k as int) {
                assert(rest.subrange(k as int, k + arrow.len()) =~= v@.subrange(
                    from + k,
                    from + k + arrow.len(),
                ));
            }
        }
        if hit {
            let at: usize = from + k + p.len();
            assert(rest.skip(k + arrow.len()) =~= v@.subrange(at as int, v@.len() as int));
            return string_of(v, at, v.len());
        }
        if k == 0 {
            assert(after_last(rest, arrow, -1) == rest);
            assert(rest =~= v@.subrange(from as int, v@.len() as int));
            return string_of(v, from, v.len());
        }
        k -= 1;
    }
}

fn unquote(s: &str) -> (r: String)
    ensures
        r@ == unquoted(s@),
{
    let v = chars_of(s);
    let mut from: usize = 0;
    let mut to: usize = v.len();
    assert(v@.subrange(0, v@.len() as int) =~= v@);
    while from < to && v[from] == '"'
        invariant
            from <= to <= v@.len(),
            to == v@.len(),
            unquoted(v@) == unquoted(v@.subrange(from as int, to as int)),
        decreases to - from,
    {
        let ghost part = v@.subrange(from as int, to as int);
        assert(part[0] == v@[from as int]);
        assert(part.skip(1) =~= v@.subrange(from + 1, to as int));
        from += 1;
    }
    while from < to && v[to - 1] == '"'
        invariant
            from <= to <= v@.len(),
            from < to ==> v@[from as int] != '"',
            unquoted(v@) == unquoted(v@.subrange(from as int, to as int)),
        decreases to - from,
    {
        let ghost part = v@.subrange(from as int, to as int);
        assert(part[0] == v@[from as int]);
        assert(part.last() == v@[to - 1]);
        assert(part.drop_last() =~= v@.subrange(from as int, to - 1));
        to -= 1;
    }
    let ghost part = v@.subrange(from as int, to as int);
    assert(from < to ==> part[0] == v@[from as int] && part.last() == v@[to - 1]);
    string_of(&v, from, to)
}

fn read_change(line: &str) -> (r: Option<RepoChange>)
    ensures
        r.deep_view() == change_of(line@),
{
    let v = chars_of(line);
    if v.len() < 4 {
        return None;
    }
    let raw = read_after_last(&v, 3);
    let path = unquote(trim(raw.as_str()).as_str());
    assert(v@.take(2) =~= v@.subrange(0, 2));
    Some(RepoChange { code: string_of(&v, 0, 2), path: RepoPath(path) })
}

impl GitCore {
    /// The changes that a status lists.
    pub fn parse_status(out: &str) -> (r: Vec<RepoChange>)
        requires
            porcelain(out@),
        ensures
            r.deep_view() == changes_of(line_seq(out@)),
    {
        let l = lines(out);
        let ghost all = line_seq(out@);
        let mut changes: Vec<RepoChange> = Vec::new();
        let mut i: usize = 0;
        assert(all.len() == l@.len());
        assert(all.take(0) =~= Seq::empty());
        assert(changes.deep_view() =~= Seq::empty());
        while i < l.len()
            invariant
                i <= l@.len(),
                all == l.deep_view(),
                changes.deep_view() == changes_of(all.take(i as int)),
            decreases l@.len() - i,
        {
            proof {
                assert(all.take(i + 1).drop_last() =~= all.take(i as int));
                assert(all.take(i + 1).last() == l@[i as int]@);
            }
            let ghost o = changes.deep_view();
            match read_change(l[i].as_str()) {
                Some(c) => {
                    changes.push(c);
                    assert(changes.deep_view() =~= o.push(c@));
                },
                None => {},
            }
            i += 1;
        }
        assert(all.take(i as int) =~= all);
        changes
    }
}

// ── Walking ─────────────────────────────────────────────────────────────────────────────

/// One entry of a directory.
#[derive(Debug)]
pub struct DirEntry {
    pub name: String,
    pub is_dir: bool,
}

/// What a [`DirEntry`] holds.
#[verifier::ext_equal]
pub struct EntryV {
    pub name: Seq<char>,
    pub is_dir: bool,
}

impl DeepView for DirEntry {
    type V = EntryV;

    open spec fn deep_view(&self) -> EntryV {
        EntryV { name: self.name@, is_dir: self.is_dir }
    }
}

/// The files among the entries of a directory.
pub open spec fn files_in(dir: Seq<char>, e: Seq<EntryV>) -> Seq<Seq<char>>
    decreases e.len(),
{
    if e.len() == 0 {
        Seq::empty()
    } else if e.last().name == ".git"@ || e.last().is_dir {
        files_in(dir, e.drop_last())
    } else {
        files_in(dir, e.drop_last()).push(joined_path(dir, e.last().name))
    }
}

/// The directories among the entries of a directory; the repository's own is none of them.
pub open spec fn dirs_in(dir: Seq<char>, e: Seq<EntryV>) -> Seq<Seq<char>>
    decreases e.len(),
{
    if e.len() == 0 {
        Seq::empty()
    } else if e.last().name == ".git"@ || !e.last().is_dir {
        dirs_in(dir, e.drop_last())
    } else {
        dirs_in(dir, e.drop_last()).push(joined_path(dir, e.last().name))
    }
}

/// A walk over a directory of the soul.
#[derive(Debug)]
pub struct Walk {
    pub max_depth: usize,
    /// The directories that are still to be read, with their depths.
    pub pending: Vec<(String, usize)>,
    pub found: Vec<String>,
}

/// What is still to be read.
pub open spec fn pending_view(v: Seq<(String, usize)>) -> Seq<(Seq<char>, usize)> {
    v.map_values(|p: (String, usize)| (p.0@, p.1))
}

/// Directories at one depth.
pub open spec fn at_depth(dirs: Seq<Seq<char>>, depth: usize) -> Seq<(Seq<char>, usize)> {
    dirs.map_values(|d: Seq<char>| (d, depth))
}

/// The paths in the order of their texts.
pub open spec fn in_text_order(v: Seq<Seq<char>>) -> bool {
    forall|i: int, j: int| 0 <= i < j < v.len() ==> !text_lt(#[trigger] v[j], #[trigger] v[i])
}

impl Walk {
    /// A walk that starts at `path`, whose own depth is 0.
    pub fn new(path: &RepoPath, max_depth: usize) -> (r: Walk)
        ensures
            r.max_depth == max_depth,
            pending_view(r.pending@) == seq![(path@, 0usize)],
            r.found.deep_view() == Seq::<Seq<char>>::empty(),
    {
        let mut pending: Vec<(String, usize)> = Vec::new();
        pending.push((path.0.clone(), 0));
        let found: Vec<String> = Vec::new();
        assert(found.deep_view() =~= Seq::empty());
        assert(pending_view(pending@) =~= seq![(path@, 0usize)]);
        Walk { max_depth, pending, found }
    }

    /// The directory to read next.
    pub fn next(&mut self) -> (r: Option<(String, usize)>)
        ensures
            final(self).max_depth == old(self).max_depth,
            final(self).found == old(self).found,
            match r {
                Some(p) => old(self).pending@.len() > 0 && p == old(self).pending@.last()
                    && final(self).pending@ == old(self).pending@.drop_last(),
                None => old(self).pending@.len() == 0 && final(self).pending@ == old(self).pending@,
            },
    {
        let r = self.pending.pop();
        assert(r is Some ==> self.pending@ =~= old(self).pending@.drop_last());
        r
    }

    /// Takes in the entries of a directory: its files are found, and its directories are read
    /// later where they are not too deep.
    pub fn visit(&mut self, dir: &str, depth: usize, entries: &Vec<DirEntry>)
        ensures
            final(self).max_depth == old(self).max_depth,
            final(self).found.deep_view() == old(self).found.deep_view() + files_in(
                dir@,
                entries.deep_view(),
            ),
            pending_view(final(self).pending@) == pending_view(old(self).pending@) + (if depth
                < old(self).max_depth {
                at_depth(dirs_in(dir@, entries.deep_view()), (depth + 1) as usize)
            } else {
                Seq::empty()
            }),
    {
        let ghost e = entries.deep_view();
        let ghost f0 = self.found.deep_view();
        let ghost p0 = pending_view(self.pending@);
        let deeper: usize = if depth < self.max_depth {
            depth + 1
        } else {
            depth
        };
        let ghost go = depth < self.max_depth;
        let mut i: usize = 0;
        assert(e.len() == entries@.len());
        assert(e.take(0) =~= Seq::empty());
        assert(f0 + files_in(dir@, e.take(0)) =~= f0);
        assert(p0 + at_depth(dirs_in(dir@, e.take(0)), deeper) =~= p0);
        while i < entries.len()
            invariant
                i <= entries@.len(),
                e == entries.deep_view(),
                self.max_depth == old(self).max_depth,
                go == (depth < self.max_depth),
                go ==> deeper == depth + 1,
                self.found.deep_view() == f0 + files_in(dir@, e.take(i as int)),
                pending_view(self.pending@) == (if go {
                    p0 + at_depth(dirs_in(dir@, e.take(i as int)), deeper)
                } else {
                    p0
                }),
            decreases entries@.len() - i,
        {
            proof {
                assert(e.take(i + 1).drop_last() =~= e.take(i as int));
                assert(e.take(i + 1).last() == entries@[i as int].deep_view());
            }
            let entry = &entries[i];
            let ghost f = self.found.deep_view();
            let ghost p = pending_view(self.pending@);
            let ghost df = dirs_in(dir@, e.take(i as int));
            if !same_text(entry.name.as_str(), ".git") {
                let path = join_path(dir, entry.name.as_str());
                if entry.is_dir {
                    if depth < self.max_depth {
                        self.pending.push((path, deeper));
                        assert(pending_view(self.pending@) =~= p.push((path@, deeper)));
                        assert(at_depth(df.push(path@), deeper) =~= at_depth(df, deeper).push(
                            (path@, deeper),
                        ));
                        assert(pending_view(self.pending@) =~= p0 + at_depth(
                            df.push(path@),
                            deeper,
                        ));
                    }
                } else {
                    self.found.push(path);
                    assert(self.found.deep_view() =~= f.push(path@));
                    assert(self.found.deep_view() =~= f0 + files_in(dir@, e.take(i + 1)));
                }
            }
            i += 1;
        }
        assert(e.take(i as int) =~= e);
        assert(p0 + Seq::<(Seq<char>, usize)>::empty() =~= p0);
    }

    /// What was found, in the order of the paths.
    pub fn finish(self) -> (r: Vec<RepoPath>)
        ensures
            in_text_order(paths_of(r@)),
            paths_of(r@).to_multiset() == self.found.deep_view().to_multiset(),
    {
        let mut out: Vec<RepoPath> = Vec::new();
        let ghost all = self.found.deep_view();
        let mut i: usize = 0;
        assert(all.len() == self.found@.len());
        proof {
            assert(all.take(0) =~= Seq::empty());
            assert(paths_of(out@) =~= Seq::empty());
        }
        while i < self.found.len()
            invariant
                i <= self.found@.len(),
                all == self.found.deep_view(),
                in_text_order(paths_of(out@)),
                paths_of(out@).to_multiset() == all.take(i as int).to_multiset(),
            decreases self.found@.len() - i,
        {
            let ghost before = paths_of(out@);
            insert_path(&mut out, self.found[i].clone());
            proof {
                assert(all.take(i + 1) =~= all.take(i as int).push(self.found@[i as int]@));
                vstd::seq_lib::to_multiset_build(all.take(i as int), self.found@[i as int]@);
            }
            i += 1;
        }
        assert(all.take(i as int) =~= all);
        out
    }
}

fn insert_path(out: &mut Vec<RepoPath>, path: String)
    requires
        in_text_order(paths_of(old(out)@)),
    ensures
        in_text_order(paths_of(final(out)@)),
        paths_of(final(out)@).to_multiset() == paths_of(old(out)@).to_multiset().insert(path@),
{
    let ghost v = paths_of(out@);
    let mut at: usize = out.len();
    while at > 0 && text_before(path.as_str(), out[at - 1].0.as_str())
        invariant
            at <= out@.len(),
            v == paths_of(out@),
            forall|k: int| at <= k < v.len() ==> text_lt(path@, #[trigger] v[k]),
        decreases at,
    {
        assert(v[at - 1] == out@[at - 1]@);
        at -= 1;
    }
    out.insert(at, RepoPath(path));
    proof {
        let w = paths_of(out@);
        assert(w =~= v.insert(at as int, path@));
        vstd::seq_lib::to_multiset_insert(v, at as int, path@);
        assert forall|i: int, j: int| 0 <= i < j < w.len() implies !text_lt(
            #[trigger] w[j],
            #[trigger] w[i],
        ) by {
            let a = if i < at { i } else { i - 1 };
            let b = if j < at { j } else { j - 1 };
            if i == at {
                assert(text_lt(path@, v[b]));
                if text_lt(v[b], path@) {
                    text_lt_transitive(path@, v[b], path@);
                    text_lt_irreflexive(path@);
                }
            } else if j == at {
                assert(w[i] == v[a]);
                if text_lt(path@, v[a]) {
                    if at > 0 && a < at - 1 {
                        assert(!text_lt(v[at - 1], v[a]));
                        text_lt_total(v[at - 1], v[a]);
                        if text_lt(v[a], v[at - 1]) {
                            text_lt_transitive(path@, v[a], v[at - 1]);
                        }
                    }
                }
            } else {
                assert(w[i] == v[a] && w[j] == v[b]);
            }
        }
    }
}

// ── Laws ────────────────────────────────────────────────────────────────────────────────

/// The repository's own files are never listed.
pub proof fn the_repository_itself_is_not_listed(dir: Seq<char>, e: Seq<EntryV>)
    requires
        forall|i: int| 0 <= i < e.len() ==> (#[trigger] e[i]).name == ".git"@,
    ensures
        files_in(dir, e) == Seq::<Seq<char>>::empty(),
        dirs_in(dir, e) == Seq::<Seq<char>>::empty(),
    decreases e.len(),
{
    if e.len() > 0 {
        the_repository_itself_is_not_listed(dir, e.drop_last());
    }
}

/// A commit is made in the name of the identity, with its message.
pub proof fn a_commit_names_its_author(did: Seq<char>, message: Seq<char>)
    ensures
        commit_words(did, message) == seq![
            "-c"@,
            "user.name="@ + did,
            "-c"@,
            "user.email="@ + did + "@dack"@,
            "commit"@,
            "-m"@,
            message,
        ],
{
    assert(commit_words(did, message) =~= seq![
        "-c"@,
        "user.name="@ + did,
        "-c"@,
        "user.email="@ + did + "@dack"@,
        "commit"@,
        "-m"@,
        message,
    ]);
}

/// What a command works on stands after a mark that no path can be taken for an option.
pub proof fn paths_stand_behind_their_mark(words: Seq<Seq<char>>, paths: Seq<Seq<char>>, i: int)
    ensures
        on_paths(words, paths).len() == words.len() + 1 + paths.len(),
        0 <= i < words.len() ==> on_paths(words, paths)[i] == words[i],
        on_paths(words, paths)[words.len() as int] == "--"@,
        0 <= i < paths.len() ==> on_paths(words, paths)[words.len() + 1 + i] == paths[i],
{
}

/// A path goes back to what it was before its last change, and away where there was nothing before.
pub proof fn a_path_goes_back_to_what_it_was(hashes: Seq<Seq<char>>, path: Seq<char>)
    ensures
        hashes.len() >= 2 ==> revert_words(hashes, path) == seq![
            "checkout"@,
            hashes[1],
            "--"@,
            path,
        ],
        hashes.len() < 2 ==> revert_words(hashes, path) == seq!["rm"@, "-f"@, "--"@, path],
{
    assert(hashes.len() >= 2 ==> revert_words(hashes, path) =~= seq![
        "checkout"@,
        hashes[1],
        "--"@,
        path,
    ]);
    assert(hashes.len() < 2 ==> revert_words(hashes, path) =~= seq!["rm"@, "-f"@, "--"@, path]);
}

/// The lines that are kept are those with something on them, in their order.
pub proof fn only_empty_lines_are_dropped(a: Seq<Seq<char>>, b: Seq<Seq<char>>, x: Seq<char>)
    ensures
        nonempty(a + b) == nonempty(a) + nonempty(b),
        nonempty(seq![x]) == if x.len() == 0 {
            Seq::<Seq<char>>::empty()
        } else {
            seq![x]
        },
    decreases b.len(),
{
    let none = Seq::<Seq<char>>::empty();
    assert(seq![x].drop_last() =~= none);
    assert(nonempty(seq![x].drop_last()) =~= none);
    if b.len() == 0 {
        assert(a + b =~= a);
        assert(nonempty(b) =~= none);
        assert(nonempty(a) + nonempty(b) =~= nonempty(a));
    } else {
        only_empty_lines_are_dropped(a, b.drop_last(), x);
        assert((a + b).drop_last() =~= a + b.drop_last());
        assert((a + b).last() == b.last());
        assert(nonempty(a + b) =~= nonempty(a) + nonempty(b));
    }
}

/// A push hands over every setting, and then pushes the head to the branch at the remote.
pub proof fn a_push_sends_the_head(
    remote: Seq<char>,
    branch: Seq<char>,
    a: Seq<Seq<char>>,
    b: Seq<Seq<char>>,
    x: Seq<char>,
)
    ensures
        config_words(a + b) == config_words(a) + config_words(b),
        config_words(Seq::empty()).len() == 0,
        config_words(seq![x]) == seq!["-c"@, x],
        push_words(remote, branch, a) == config_words(a) + seq![
            "push"@,
            remote,
            "HEAD:refs/heads/"@ + trimmed(branch),
        ],
    decreases b.len(),
{
    let none = Seq::<Seq<char>>::empty();
    assert(seq![x].drop_last() =~= none);
    assert(config_words(seq![x].drop_last()) =~= none);
    assert(config_words(seq![x]) =~= seq!["-c"@, x]);
    if b.len() == 0 {
        assert(a + b =~= a);
        assert(config_words(b) =~= none);
        assert(config_words(a) + config_words(b) =~= config_words(a));
    } else {
        a_push_sends_the_head(remote, branch, a, b.drop_last(), x);
        assert((a + b).drop_last() =~= a + b.drop_last());
        assert((a + b).last() == b.last());
        assert(config_words(a + b) =~= config_words(a) + config_words(b));
    }
}

/// What stands after the last mark is taken, and all of it where there is no mark.
pub proof fn the_last_mark_counts(s: Seq<char>, p: Seq<char>, k: int, i: int)
    ensures
        0 <= i <= k && occurs_at(s, p, i) && (forall|j: int|
            i < j <= k ==> !#[trigger] occurs_at(s, p, j)) ==> after_last(s, p, k) == s.skip(
            i + p.len(),
        ),
        (forall|j: int| 0 <= j <= k ==> !#[trigger] occurs_at(s, p, j)) ==> after_last(s, p, k) == s,
    decreases k + 1,
{
    if k >= 0 {
        the_last_mark_counts(s, p, k - 1, i);
    }
}

/// Quotes around a path are taken off, and nothing else of it.
pub proof fn only_quotes_are_taken_off(s: Seq<char>)
    ensures
        unquoted(s).len() > 0 ==> unquoted(s)[0] != '"' && unquoted(s).last() != '"',
        s.len() > 0 && s[0] != '"' && s.last() != '"' ==> unquoted(s) == s && unquoted(
            seq!['"'] + s + seq!['"'],
        ) == s,
        has_part(s, unquoted(s)),
    decreases s.len(),
{
    let q = seq!['"'] + s + seq!['"'];
    assert(q.skip(1) =~= s.push('"'));
    assert(s.push('"').drop_last() =~= s);
    if s.len() > 0 && s[0] != '"' && s.last() != '"' {
        assert(unquoted(s) == s);
        assert(unquoted(s.push('"')) == s);
        assert(unquoted(q) == s);
    }
    if s.len() > 0 && s[0] == '"' {
        let r = s.skip(1);
        only_quotes_are_taken_off(r);
        let i = choose|i: int| occurs_at(r, unquoted(r), i);
        assert(s.subrange(i + 1, i + 1 + unquoted(r).len()) =~= r.subrange(i, i + unquoted(r).len()));
        assert(occurs_at(s, unquoted(s), i + 1));
    } else if s.len() > 0 && s.last() == '"' {
        let r = s.drop_last();
        only_quotes_are_taken_off(r);
        let i = choose|i: int| occurs_at(r, unquoted(r), i);
        assert(s.subrange(i, i + unquoted(r).len()) =~= r.subrange(i, i + unquoted(r).len()));
        assert(occurs_at(s, unquoted(s), i));
    } else {
        assert(s.subrange(0, s.len() as int) =~= s);
        assert(occurs_at(s, unquoted(s), 0));
    }
}

/// A line of the status tells the two letters of a change and the path that it is about.
pub proof fn a_status_line_tells_its_path(code: Seq<char>, path: Seq<char>)
    requires
        code.len() == 2,
        path.len() > 0,
        trimmed(path) == path,
        path[0] != '"',
        path.last() != '"',
        !has_part(path, " -> "@),
    ensures
        change_of(code + seq![' '] + path) == Some(ChangeV { code, path }),
{
    let line = code + seq![' '] + path;
    assert(line.skip(3) =~= path);
    assert(line.take(2) =~= code);
    let n = path.len() as int;
    assert forall|j: int| 0 <= j <= n implies !#[trigger] occurs_at(path, " -> "@, j) by {
        if occurs_at(path, " -> "@, j) {
            assert(has_part(path, " -> "@));
        }
    }
    the_last_mark_counts(path, " -> "@, n, 0);
    only_quotes_are_taken_off(path);
}

/// A file that was moved is told by its new path.
pub proof fn a_moved_file_is_told_by_its_new_path(
    code: Seq<char>,
    old_path: Seq<char>,
    path: Seq<char>,
)
    requires
        code.len() == 2,
        path.len() > 0,
        trimmed(path) == path,
        path[0] != '"',
        path.last() != '"',
        !has_part(path, " -> "@),
        !has_prefix(path, "-> "@),
    ensures
        change_of(code + seq![' '] + old_path + " -> "@ + path) == Some(ChangeV { code, path }),
{
    let moved = code + seq![' '] + old_path + " -> "@ + path;
    let rest = old_path + " -> "@ + path;
    assert(moved.skip(3) =~= rest) by {
        reveal_strlit(" -> ");
    }
    assert(moved.take(2) =~= code);
    assert(moved.len() >= 4);
    the_mark_between_is_the_last(old_path, path);
    only_quotes_are_taken_off(path);
}

proof fn the_mark_between_is_the_last(old_path: Seq<char>, path: Seq<char>)
    requires
        !has_part(path, " -> "@),
        !has_prefix(path, "-> "@),
    ensures
        ({
            let rest = old_path + " -> "@ + path;
            after_last(rest, " -> "@, rest.len() as int) == path
        }),
{
    let rest = old_path + " -> "@ + path;
    let k = old_path.len() as int;
    reveal_strlit(" -> ");
    reveal_strlit("-> ");
    assert(rest.subrange(k, k + 4) =~= " -> "@);
    assert(occurs_at(rest, " -> "@, k));
    assert forall|j: int| k < j <= rest.len() implies !#[trigger] occurs_at(rest, " -> "@, j) by {
        no_mark_stands_later(old_path, path, j);
    }
    the_last_mark_counts(rest, " -> "@, rest.len() as int, k);
    assert(rest.skip(k + 4) =~= path);
}

proof fn no_mark_stands_later(old_path: Seq<char>, path: Seq<char>, j: int)
    requires
        !has_part(path, " -> "@),
        !has_prefix(path, "-> "@),
        j > old_path.len(),
    ensures
        !occurs_at(old_path + " -> "@ + path, " -> "@, j),
{
    let rest = old_path + " -> "@ + path;
    let k = old_path.len() as int;
    reveal_strlit(" -> ");
    reveal_strlit("-> ");
    if occurs_at(rest, " -> "@, j) {
        let m = rest.subrange(j, j + 4);
        assert(m == " -> "@);
        if j == k + 3 {
            assert(path.subrange(0, 3) =~= "-> "@) by {
                assert(m[1] == path[0] && m[2] == path[1] && m[3] == path[2]);
            }
            assert(has_prefix(path, "-> "@));
        } else if j >= k + 4 {
            assert(path.subrange(j - k - 4, j - k) =~= m);
            assert(occurs_at(path, " -> "@, j - k - 4));
        } else {
            assert(m[0] == rest[j]);
            assert(rest[k + 1] == '-' && rest[k + 2] == '>');
        }
    }
}

/// Every line of the status that is long enough is a change, in their order.
pub proof fn every_status_line_is_a_change(a: Seq<Seq<char>>, b: Seq<Seq<char>>, x: Seq<char>)
    ensures
        changes_of(a + b) == changes_of(a) + changes_of(b),
        changes_of(seq![x]) == match change_of(x) {
            Some(c) => seq![c],
            None => Seq::<ChangeV>::empty(),
        },
        change_of(x) is None <==> x.len() < 4,
    decreases b.len(),
{
    assert(seq![x].drop_last() =~= Seq::<Seq<char>>::empty());
    assert(changes_of(seq![x].drop_last()) =~= Seq::<ChangeV>::empty());
    if b.len() == 0 {
        assert(a + b =~= a);
        assert(changes_of(b) =~= Seq::<ChangeV>::empty());
        assert(changes_of(a) + changes_of(b) =~= changes_of(a));
    } else {
        every_status_line_is_a_change(a, b.drop_last(), x);
        assert((a + b).drop_last() =~= a + b.drop_last());
        assert((a + b).last() == b.last());
        assert(changes_of(a + b) =~= changes_of(a) + changes_of(b));
    }
}

/// Everything in a directory is a file or a directory to go into, but for what git keeps there.
pub proof fn every_entry_is_a_file_or_a_directory(
    dir: Seq<char>,
    a: Seq<EntryV>,
    b: Seq<EntryV>,
    x: EntryV,
)
    ensures
        files_in(dir, a + b) == files_in(dir, a) + files_in(dir, b),
        dirs_in(dir, a + b) == dirs_in(dir, a) + dirs_in(dir, b),
        ({
            let path = seq![joined_path(dir, x.name)];
            let none = Seq::<Seq<char>>::empty();
            &&& x.name == ".git"@ ==> files_in(dir, seq![x]) == none && dirs_in(dir, seq![x]) == none
            &&& x.name != ".git"@ && x.is_dir ==> files_in(dir, seq![x]) == none && dirs_in(
                dir,
                seq![x],
            ) == path
            &&& x.name != ".git"@ && !x.is_dir ==> files_in(dir, seq![x]) == path && dirs_in(
                dir,
                seq![x],
            ) == none
        }),
    decreases b.len(),
{
    let none = Seq::<Seq<char>>::empty();
    assert(seq![x].drop_last() =~= Seq::<EntryV>::empty());
    assert(files_in(dir, seq![x].drop_last()) =~= none);
    assert(dirs_in(dir, seq![x].drop_last()) =~= none);
    if b.len() == 0 {
        assert(a + b =~= a);
        assert(files_in(dir, b) =~= none && dirs_in(dir, b) =~= none);
        assert(files_in(dir, a) + files_in(dir, b) =~= files_in(dir, a));
        assert(dirs_in(dir, a) + dirs_in(dir, b) =~= dirs_in(dir, a));
    } else {
        every_entry_is_a_file_or_a_directory(dir, a, b.drop_last(), x);
        assert((a + b).drop_last() =~= a + b.drop_last());
        assert((a + b).last() == b.last());
        assert(files_in(dir, a + b) =~= files_in(dir, a) + files_in(dir, b));
        assert(dirs_in(dir, a + b) =~= dirs_in(dir, a) + dirs_in(dir, b));
    }
}

} // verus!

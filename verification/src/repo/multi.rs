//! A soul that is pushed to many places.

use vstd::prelude::*;

use crate::error::{error_detail, error_text, DackError};
use crate::repo::gitcore::GitCore;
use crate::repo::gitlawb::{
    is_transient, is_transient_push_error, signed_env, signed_push_env,
};
use crate::stimuli::pairs_view;
use crate::text::{has_part, occurs_at, owned, push_one};

verus! {

/// One place that the soul is pushed to, with all that a push needs.
#[derive(Debug)]
pub enum PushTarget {
    /// An ordinary push.
    Git {
        name: String,
        url: String,
        /// The user name, and the variable that holds the access token.
        token: Option<(String, String)>,
        required: bool,
    },
    /// A push that the helper signs.
    Gitlawb { name: String, url: String, key_path: String, node: String, required: bool },
}

/// The name of a target.
pub open spec fn target_name(t: PushTarget) -> Seq<char> {
    match t {
        PushTarget::Git { name, .. } => name@,
        PushTarget::Gitlawb { name, .. } => name@,
    }
}

/// Whether a target must be reached.
pub open spec fn target_required(t: PushTarget) -> bool {
    match t {
        PushTarget::Git { required, .. } => required,
        PushTarget::Gitlawb { required, .. } => required,
    }
}

/// The variable that a target's token is read from.
pub open spec fn target_token_env(t: PushTarget) -> Option<Seq<char>> {
    match t {
        PushTarget::Git { token: Some((_, env)), .. } => Some(env@),
        _ => None,
    }
}

/// One push: where to, with what in the environment and in the settings.
#[derive(Debug)]
pub struct PushPlan {
    pub url: String,
    pub env: Vec<(String, String)>,
    pub config: Vec<String>,
}

/// What a [`PushPlan`] holds.
#[verifier::ext_equal]
pub struct PushPlanV {
    pub url: Seq<char>,
    pub env: Seq<(Seq<char>, Seq<char>)>,
    pub config: Seq<Seq<char>>,
}

impl View for PushPlan {
    type V = PushPlanV;

    open spec fn view(&self) -> PushPlanV {
        PushPlanV { url: self.url@, env: pairs_view(self.env@), config: self.config.deep_view() }
    }
}

/// The settings under which `git` asks the environment for a token, and nothing else.
pub open spec fn helper_config() -> Seq<Seq<char>> {
    seq![
        "credential.helper="@,
        "credential.helper=!f() { echo username=\"$DACK_GIT_USER\"; echo password=\"$DACK_GIT_TOKEN\"; }; f"@,
    ]
}

/// How a target is pushed to, given its token; none where it needs one that is not there.
pub open spec fn push_plan(t: PushTarget, token: Option<Seq<char>>) -> Option<PushPlanV> {
    match t {
        PushTarget::Gitlawb { url, key_path, node, .. } => Some(
            PushPlanV { url: url@, env: signed_env(key_path@, node@), config: Seq::empty() },
        ),
        PushTarget::Git { url, token: None, .. } => Some(
            PushPlanV { url: url@, env: Seq::empty(), config: Seq::empty() },
        ),
        PushTarget::Git { url, token: Some((user, _)), .. } => match token {
            Some(secret) => Some(
                PushPlanV {
                    url: url@,
                    env: seq![("DACK_GIT_USER"@, user@), ("DACK_GIT_TOKEN"@, secret)],
                    config: helper_config(),
                },
            ),
            None => None,
        },
    }
}

/// What is said of a token that is not there.
pub open spec fn missing_token(name: Seq<char>, env: Seq<char>) -> Seq<char> {
    "soul remote `"@ + name + "`: token env `"@ + env + "` not set in the daemon environment"@
}

fn no_words() -> (r: Vec<String>)
    ensures
        r.deep_view() == Seq::<Seq<char>>::empty(),
{
    let v: Vec<String> = Vec::new();
    assert(v.deep_view() =~= Seq::empty());
    v
}

impl PushTarget {
    pub fn name(&self) -> (r: &str)
        ensures
            r@ == target_name(*self),
    {
        match self {
            PushTarget::Git { name, .. } => name.as_str(),
            PushTarget::Gitlawb { name, .. } => name.as_str(),
        }
    }

    pub fn required(&self) -> (r: bool)
        ensures
            r == target_required(*self),
    {
        match self {
            PushTarget::Git { required, .. } => *required,
            PushTarget::Gitlawb { required, .. } => *required,
        }
    }

    /// The variable whose value [`plan`] takes.
    ///
    /// [`plan`]: PushTarget::plan
    pub fn token_env(&self) -> (r: Option<String>)
        ensures
            r.deep_view() == target_token_env(*self),
    {
        match self {
            PushTarget::Git { token: Some(t), .. } => Some(t.1.clone()),
            _ => None,
        }
    }

    /// How the target is pushed to. `token` is what its variable holds.
    pub fn plan(&self, token: &Option<String>) -> (r: Result<PushPlan, DackError>)
        ensures
            match push_plan(*self, token.deep_view()) {
                Some(p) => r is Ok && r->Ok_0@ == p,
                None => r is Err && r->Err_0 is Repo && error_detail(r->Err_0) == missing_token(
                    target_name(*self),
                    target_token_env(*self)->0,
                ),
            },
    {
        match self {
            PushTarget::Gitlawb { url, key_path, node, .. } => Ok(
                PushPlan {
                    url: url.clone(),
                    env: signed_push_env(key_path.as_str(), node.as_str()),
                    config: no_words(),
                },
            ),
            PushTarget::Git { name, url, token: auth, .. } => match auth {
                None => {
                    let env: Vec<(String, String)> = Vec::new();
                    assert(pairs_view(env@) =~= Seq::empty());
                    Ok(PushPlan { url: url.clone(), env, config: no_words() })
                },
                Some(a) => match token {
                    Some(secret) => {
                        let mut env: Vec<(String, String)> = Vec::new();
                        env.push((owned("DACK_GIT_USER"), a.0.clone()));
                        env.push((owned("DACK_GIT_TOKEN"), secret.clone()));
                        assert(pairs_view(env@) =~= seq![
                            ("DACK_GIT_USER"@, a.0@),
                            ("DACK_GIT_TOKEN"@, secret@),
                        ]);
                        let mut config = no_words();
                        push_one(&mut config, "credential.helper=");
                        push_one(
                            &mut config,
                            "credential.helper=!f() { echo username=\"$DACK_GIT_USER\"; echo password=\"$DACK_GIT_TOKEN\"; }; f",
                        );
                        assert(config.deep_view() =~= helper_config());
                        Ok(PushPlan { url: url.clone(), env, config })
                    },
                    None => {
                        let mut out = owned("soul remote `");
                        out.append(name.as_str());
                        out.append("`: token env `");
                        out.append(a.1.as_str());
                        out.append("` not set in the daemon environment");
                        Err(DackError::Repo(out))
                    },
                },
            },
        }
    }
}

// ── Trying again ────────────────────────────────────────────────────────────────────────

/// How often a push is tried.
pub const MAX_ATTEMPTS: u32 = 4;

/// How long is waited after a try, in milliseconds: half a second, and twice as long every
/// time.
pub open spec fn wait_after(attempt: int) -> int
    decreases attempt,
{
    if attempt <= 1 {
        500
    } else {
        2 * wait_after(attempt - 1)
    }
}

/// What follows a try.
#[derive(Debug)]
pub enum PushStep {
    Done,
    /// The push is tried again after a wait.
    Retry { wait_ms: u64 },
    Failed(DackError),
}

/// What follows the try of a push: one that may succeed later is tried again, a few times;
/// everything else is final.
pub open spec fn step_after(attempt: u32, outcome: Result<(), DackError>) -> PushStep {
    match outcome {
        Ok(()) => PushStep::Done,
        Err(e) => if attempt < MAX_ATTEMPTS && is_transient(error_text(e)) {
            PushStep::Retry { wait_ms: wait_after(attempt as int) as u64 }
        } else {
            PushStep::Failed(e)
        },
    }
}

/// What follows the try of a push: one that may succeed later is tried again, a few times;
/// everything else is final.
pub fn after_push(attempt: u32, outcome: Result<(), DackError>) -> (r: PushStep)
    requires
        attempt >= 1,
    ensures
        r == step_after(attempt, outcome),
{
    match outcome {
        Ok(()) => PushStep::Done,
        Err(e) => {
            let text = e.text();
            if attempt >= MAX_ATTEMPTS || !is_transient_push_error(text.as_str()) {
                return PushStep::Failed(e);
            }
            proof {
                reveal_with_fuel(wait_after, 3);
            }
            let wait_ms: u64 = if attempt == 1 {
                500
            } else if attempt == 2 {
                1000
            } else {
                2000
            };
            PushStep::Retry { wait_ms }
        },
    }
}

// ── The soul ────────────────────────────────────────────────────────────────────────────

/// A soul with its push targets.
#[derive(Debug)]
pub struct MultiRemoteRepo {
    pub core: GitCore,
    pub targets: Vec<PushTarget>,
    /// Whether there may be commits that were not pushed.
    pub dirty: bool,
}

/// The names of targets.
pub open spec fn names_of(targets: Seq<PushTarget>) -> Seq<Seq<char>> {
    targets.map_values(|t: PushTarget| target_name(t))
}

/// The first failure at a target that must be reached.
pub open spec fn first_failure(
    targets: Seq<PushTarget>,
    results: Seq<Result<(), DackError>>,
) -> Option<DackError>
    decreases results.len(),
{
    if results.len() == 0 || targets.len() == 0 {
        None
    } else {
        match results[0] {
            Err(e) => if target_required(targets[0]) {
                Some(e)
            } else {
                first_failure(targets.skip(1), results.skip(1))
            },
            Ok(()) => first_failure(targets.skip(1), results.skip(1)),
        }
    }
}

impl MultiRemoteRepo {
    /// A soul of which nothing is known to be pushed: the first push also ships what an
    /// earlier run left behind.
    pub fn new(workdir: String, author_did: String, targets: Vec<PushTarget>) -> (r: MultiRemoteRepo)
        ensures
            r.core.workdir == workdir,
            r.core.default_author == author_did,
            r.targets == targets,
            r.dirty,
    {
        MultiRemoteRepo { core: GitCore::new(workdir, author_did), targets, dirty: true }
    }

    pub fn target_names(&self) -> (r: Vec<String>)
        ensures
            r.deep_view() == names_of(self.targets@),
    {
        let mut out = no_words();
        let mut i: usize = 0;
        while i < self.targets.len()
            invariant
                i <= self.targets@.len(),
                out.deep_view() == names_of(self.targets@.take(i as int)),
            decreases self.targets@.len() - i,
        {
            push_one(&mut out, self.targets[i].name());
            assert(self.targets@.take(i + 1) =~= self.targets@.take(i as int).push(
                self.targets@[i as int],
            ));
            assert(out.deep_view() =~= names_of(self.targets@.take(i + 1)));
            i += 1;
        }
        assert(self.targets@.take(i as int) =~= self.targets@);
        out
    }

    /// A commit was made.
    pub fn committed(&mut self)
        ensures
            final(self).dirty,
            final(self).core == old(self).core,
            final(self).targets == old(self).targets,
    {
        self.dirty = true;
    }

    /// Whether there is anything to push.
    pub fn needs_push(&self) -> (r: bool)
        ensures
            r == self.dirty,
    {
        self.dirty
    }

    /// Takes in how the push to each target went. A failure at a target that must be reached
    /// is handed on, and what was not pushed stays to be pushed; a failure at any other target
    /// is let go.
    pub fn pushed(&mut self, results: Vec<Result<(), DackError>>) -> (r: Result<(), DackError>)
        requires
            results@.len() == old(self).targets@.len(),
        ensures
            final(self).core == old(self).core,
            final(self).targets == old(self).targets,
            match first_failure(old(self).targets@, results@) {
                Some(e) => r == Err::<(), DackError>(e) && final(self).dirty == old(self).dirty,
                None => r is Ok && !final(self).dirty,
            },
    {
        let ghost all = results@;
        let ghost targets = self.targets@;
        let mut rest = results;
        let mut i: usize = 0;
        assert(targets.skip(0) =~= targets);
        assert(all.skip(0) =~= all);
        while i < self.targets.len()
            invariant
                i <= self.targets@.len(),
                self.core == old(self).core,
                self.targets == old(self).targets,
                self.dirty == old(self).dirty,
                targets == self.targets@,
                all.len() == targets.len(),
                all == results@,
                rest@ == all.skip(i as int),
                first_failure(targets, all) == first_failure(
                    targets.skip(i as int),
                    all.skip(i as int),
                ),
            decreases self.targets@.len() - i,
        {
            let one = rest.remove(0);
            proof {
                assert(one == all[i as int]);
                assert(all.skip(i as int).skip(1) =~= all.skip(i + 1));
                assert(targets.skip(i as int).skip(1) =~= targets.skip(i + 1));
                assert(targets.skip(i as int)[0] == targets[i as int]);
                assert(rest@ =~= all.skip(i + 1));
            }
            match one {
                Ok(()) => {},
                Err(e) => {
                    if self.targets[i].required() {
                        return Err(e);
                    }
                },
            }
            i += 1;
        }
        assert(all.skip(i as int).len() == 0);
        self.dirty = false;
        Ok(())
    }
}

// ── Laws ────────────────────────────────────────────────────────────────────────────────

/// A push that is refused for good is tried once, no push is tried more than four times, and
/// all the waits together are three and a half seconds.
pub proof fn a_push_is_tried_a_bounded_number_of_times(attempt: u32, outcome: Result<(), DackError>)
    requires
        attempt >= 1,
    ensures
        step_after(attempt, outcome) is Retry ==> attempt < 4 && outcome is Err && is_transient(
            error_text(outcome->Err_0),
        ),
        wait_after(1) + wait_after(2) + wait_after(3) == 3500,
{
    reveal_with_fuel(wait_after, 3);
}

/// A target that need not be reached never fails a push.
pub proof fn a_best_effort_target_never_fails_a_push(
    targets: Seq<PushTarget>,
    results: Seq<Result<(), DackError>>,
)
    requires
        forall|i: int| 0 <= i < targets.len() ==> !target_required(#[trigger] targets[i]),
    ensures
        first_failure(targets, results) is None,
    decreases results.len(),
{
    if results.len() > 0 && targets.len() > 0 {
        assert forall|i: int| 0 <= i < targets.skip(1).len() implies !target_required(
            #[trigger] targets.skip(1)[i],
        ) by {
            assert(targets.skip(1)[i] == targets[i + 1]);
        }
        a_best_effort_target_never_fails_a_push(targets.skip(1), results.skip(1));
    }
}

/// A failure at a target that must be reached is never lost.
pub proof fn a_required_failure_surfaces(
    targets: Seq<PushTarget>,
    results: Seq<Result<(), DackError>>,
    i: int,
)
    requires
        targets.len() == results.len(),
        0 <= i < results.len(),
        results[i] is Err,
        target_required(targets[i]),
    ensures
        first_failure(targets, results) is Some,
    decreases results.len(),
{
    if i > 0 {
        assert(results.skip(1)[i - 1] == results[i]);
        assert(targets.skip(1)[i - 1] == targets[i]);
        a_required_failure_surfaces(targets.skip(1), results.skip(1), i - 1);
    }
}

/// An access token is never on the command line: the address and the settings of a push are
/// the same whatever the token is.
pub proof fn a_token_stays_off_the_command_line(
    t: PushTarget,
    token: Option<Seq<char>>,
    other: Option<Seq<char>>,
)
    requires
        push_plan(t, token) is Some,
        push_plan(t, other) is Some,
    ensures
        push_plan(t, token)->0.url == push_plan(t, other)->0.url,
        push_plan(t, token)->0.config == push_plan(t, other)->0.config,
{
}

/// The wait between two tries doubles, from half a second.
pub proof fn the_wait_doubles(attempt: int)
    ensures
        wait_after(1) == 500,
        attempt >= 1 ==> wait_after(attempt + 1) == 2 * wait_after(attempt),
{
}

/// A push is done where it went through, tried again where it failed in passing and a try is left,
/// and failed with its own error otherwise.
pub proof fn a_push_is_tried_again_only_in_passing(attempt: u32, outcome: Result<(), DackError>)
    ensures
        step_after(attempt, outcome) is Done <==> outcome is Ok,
        outcome matches Err(e) ==> (step_after(attempt, outcome) is Retry <==> attempt < 4
            && is_transient(error_text(e))),
        outcome matches Err(e) ==> (attempt >= 4 || !is_transient(error_text(e))) ==> step_after(
            attempt,
            outcome,
        ) == PushStep::Failed(e),
        step_after(attempt, outcome) matches PushStep::Retry { wait_ms } ==> wait_ms == wait_after(
            attempt as int,
        ) as u64,
{
}

/// The failure that is told is the first of those that count.
pub proof fn the_first_failure_is_told(
    targets: Seq<PushTarget>,
    results: Seq<Result<(), DackError>>,
    i: int,
)
    requires
        targets.len() == results.len(),
        0 <= i < results.len(),
        results[i] is Err,
        target_required(targets[i]),
        forall|j: int|
            0 <= j < i ==> (#[trigger] results[j]) is Ok || !target_required(targets[j]),
    ensures
        first_failure(targets, results) == Some(results[i]->Err_0),
    decreases results.len(),
{
    if i > 0 {
        let t = targets.skip(1);
        let r = results.skip(1);
        assert(results[0] is Ok || !target_required(targets[0]));
        assert forall|j: int| 0 <= j < i - 1 implies (#[trigger] r[j]) is Ok || !target_required(
            t[j],
        ) by {
            assert(r[j] == results[j + 1] && t[j] == targets[j + 1]);
        }
        assert(r[i - 1] == results[i] && t[i - 1] == targets[i]);
        the_first_failure_is_told(t, r, i - 1);
    }
}

/// A push goes to the address of its target. It is signed with its key, or logs in with its user
/// and its token, which git asks for, or goes as it is; without its token it does not go.
pub proof fn a_push_goes_as_its_target_says(t: PushTarget, token: Option<Seq<char>>)
    ensures
        match t {
            PushTarget::Gitlawb { url, key_path, node, .. } => {
                &&& push_plan(t, token) matches Some(p)
                &&& p.url == url@
                &&& p.env == signed_env(key_path@, node@)
                &&& p.config.len() == 0
            },
            PushTarget::Git { url, token: None, .. } => {
                &&& push_plan(t, token) matches Some(p)
                &&& p.url == url@
                &&& p.env.len() == 0
                &&& p.config.len() == 0
            },
            PushTarget::Git { url, token: Some((user, _)), .. } => {
                &&& push_plan(t, token) is Some <==> token is Some
                &&& push_plan(t, token) matches Some(p) ==> {
                    &&& p.url == url@
                    &&& p.env == seq![("DACK_GIT_USER"@, user@), ("DACK_GIT_TOKEN"@, token->0)]
                    &&& p.config.len() == 2
                    &&& p.config[0] == "credential.helper="@
                    &&& has_part(p.config[1], "username=\"$DACK_GIT_USER\""@)
                    &&& has_part(p.config[1], "password=\"$DACK_GIT_TOKEN\""@)
                }
            },
        },
{
    reveal_strlit(
        "credential.helper=!f() { echo username=\"$DACK_GIT_USER\"; echo password=\"$DACK_GIT_TOKEN\"; }; f",
    );
    reveal_strlit("username=\"$DACK_GIT_USER\"");
    reveal_strlit("password=\"$DACK_GIT_TOKEN\"");
    let h = helper_config()[1];
    let u = "username=\"$DACK_GIT_USER\""@;
    let w = "password=\"$DACK_GIT_TOKEN\""@;
    assert(h.subrange(30, 55) =~= u);
    assert(occurs_at(h, u, 30));
    assert(h.subrange(62, 88) =~= w);
    assert(occurs_at(h, w, 62));
}

/// A target is named and required as it says, and asks for a token only where it has one.
pub proof fn a_target_is_what_it_says(t: PushTarget)
    ensures
        match t {
            PushTarget::Git { name, required, token, .. } => {
                &&& target_name(t) == name@
                &&& target_required(t) == required
                &&& match token {
                    Some((_, env)) => target_token_env(t) == Some(env@),
                    None => target_token_env(t) is None,
                }
            },
            PushTarget::Gitlawb { name, required, .. } => {
                &&& target_name(t) == name@
                &&& target_required(t) == required
                &&& target_token_env(t) is None
            },
        },
{
}

} // verus!

//! The side processes that the harness keeps alive.

use vstd::prelude::*;

use crate::config::ModuleConfig;
use crate::sandbox::{passthrough, ExecKind, IsolationPolicy, Mount, ProcessSpec, ProcessV};
use crate::strmap::{overlaid, texts, StrMap};
use crate::text::{owned, owned_all, push_one};

verus! {

/// The first wait before a restart, in seconds.
pub const BACKOFF_START: u64 = 1;

/// The longest wait before a restart, in seconds.
pub const BACKOFF_CAP: u64 = 30;

/// How long a process has to stay up to count as healthy, in milliseconds.
pub const HEALTHY_UPTIME_MS: u64 = 60_000;

/// How a run of a module ended.
#[derive(Debug, Clone, Copy)]
pub enum RunOutcome {
    /// It ended by itself.
    Exited { uptime_ms: u64 },
    /// It never came up.
    SpawnFailed,
    /// The harness is going down, and the process was stopped.
    Shutdown,
}

/// What follows a run of a module.
#[derive(Debug, Clone, Copy)]
pub enum Supervision {
    Stop,
    /// It is started again after a wait.
    Restart { wait_secs: u64, backoff: u64 },
}

/// The wait after a run: a healthy run starts the curve anew.
pub open spec fn wait_of(backoff: u64, outcome: RunOutcome) -> u64 {
    match outcome {
        RunOutcome::Exited { uptime_ms } => if uptime_ms >= HEALTHY_UPTIME_MS {
            BACKOFF_START
        } else {
            backoff
        },
        _ => backoff,
    }
}

/// The wait after the next run that is not healthy: twice as long, up to the cap.
pub open spec fn longer(wait: u64) -> u64 {
    if 2 * wait < BACKOFF_CAP {
        (2 * wait) as u64
    } else {
        BACKOFF_CAP
    }
}

/// What follows a run of a module.
pub open spec fn supervised(backoff: u64, outcome: RunOutcome, shutdown: bool) -> Supervision {
    if shutdown || outcome is Shutdown {
        Supervision::Stop
    } else {
        let wait = wait_of(backoff, outcome);
        Supervision::Restart { wait_secs: wait, backoff: longer(wait) }
    }
}

/// What follows a run of a module. `backoff` is what the last restart gave, and
/// [`BACKOFF_START`] before the first.
pub fn after_run(backoff: u64, outcome: RunOutcome, shutdown: bool) -> (r: Supervision)
    requires
        backoff <= BACKOFF_CAP,
    ensures
        r == supervised(backoff, outcome, shutdown),
{
    if shutdown {
        return Supervision::Stop;
    }
    let wait: u64 = match outcome {
        RunOutcome::Shutdown => return Supervision::Stop,
        RunOutcome::Exited { uptime_ms } => if uptime_ms >= HEALTHY_UPTIME_MS {
            BACKOFF_START
        } else {
            backoff
        },
        RunOutcome::SpawnFailed => backoff,
    };
    let next: u64 = if 2 * wait < BACKOFF_CAP {
        2 * wait
    } else {
        BACKOFF_CAP
    };
    Supervision::Restart { wait_secs: wait, backoff: next }
}

/// Where a module runs.
pub open spec fn module_cwd(m: ModuleConfig, default: Seq<char>) -> Seq<char> {
    match m.cwd {
        Some(d) => d@,
        None => default,
    }
}

/// The process of a module: its own variables, and over them the secrets that could be
/// resolved. Where they could not, it starts without.
pub fn module_process(module: &ModuleConfig, secrets: Option<&StrMap<String>>, default_cwd: &str) -> (r:
    ProcessSpec)
    ensures
        r@ == (ProcessV {
            command: module.command.deep_view(),
            cwd: module_cwd(*module, default_cwd@),
            env: match secrets {
                Some(s) => overlaid(texts(module.env), texts(*s)),
                None => texts(module.env),
            },
            clear_env: false,
            kind: ExecKind::Module,
            mounts: Seq::empty(),
            policy: passthrough(),
            name: None,
        }),
{
    let mut env = module.env.copy();
    match secrets {
        Some(s) => env.overlay(s),
        None => {},
    }
    let mounts: Vec<Mount> = Vec::new();
    assert(mounts.deep_view() =~= Seq::empty());
    let cwd = match &module.cwd {
        Some(d) => d.clone(),
        None => owned(default_cwd),
    };
    ProcessSpec {
        command: owned_all(&module.command),
        cwd,
        env,
        clear_env: false,
        kind: ExecKind::Module,
        mounts,
        policy: IsolationPolicy::host_passthrough(),
        name: None,
    }
}

/// The names of the modules that are started, or of those that are not.
pub open spec fn names_where(m: Seq<ModuleConfig>, enabled: bool) -> Seq<Seq<char>>
    decreases m.len(),
{
    if m.len() == 0 {
        Seq::empty()
    } else if m.last().enabled == enabled {
        names_where(m.drop_last(), enabled).push(m.last().name@)
    } else {
        names_where(m.drop_last(), enabled)
    }
}

/// The names of the modules that are started, or of those that are not.
pub fn module_names(modules: &Vec<ModuleConfig>, enabled: bool) -> (r: Vec<String>)
    ensures
        r.deep_view() == names_where(modules@, enabled),
{
    let mut out: Vec<String> = Vec::new();
    let mut i: usize = 0;
    assert(modules@.take(0) =~= Seq::empty());
    assert(out.deep_view() =~= Seq::empty());
    while i < modules.len()
        invariant
            i <= modules@.len(),
            out.deep_view() == names_where(modules@.take(i as int), enabled),
        decreases modules@.len() - i,
    {
        proof {
            assert(modules@.take(i + 1).drop_last() =~= modules@.take(i as int));
            assert(modules@.take(i + 1).last() == modules@[i as int]);
        }
        let ghost o = out.deep_view();
        if modules[i].enabled == enabled {
            push_one(&mut out, modules[i].name.as_str());
            assert(out.deep_view() =~= o.push(modules@[i as int].name@));
        }
        i += 1;
    }
    assert(modules@.take(i as int) =~= modules@);
    out
}

// ── Laws ────────────────────────────────────────────────────────────────────────────────

/// A module is restarted after one to thirty seconds, whatever happened, and the next wait
/// keeps to that too.
pub proof fn a_restart_is_never_far(backoff: u64, outcome: RunOutcome, shutdown: bool)
    requires
        BACKOFF_START <= backoff <= BACKOFF_CAP,
        supervised(backoff, outcome, shutdown) is Restart,
    ensures
        1 <= supervised(backoff, outcome, shutdown)->wait_secs <= 30,
        BACKOFF_START <= supervised(backoff, outcome, shutdown)->backoff <= BACKOFF_CAP,
{
}

/// A module that was up for a minute restarts as promptly as at first.
pub proof fn a_healthy_run_starts_the_curve_anew(backoff: u64, uptime_ms: u64)
    requires
        uptime_ms >= 60_000,
    ensures
        supervised(backoff, RunOutcome::Exited { uptime_ms }, false) == (Supervision::Restart {
            wait_secs: 1,
            backoff: 2,
        }),
{
}

/// Once the harness goes down, nothing is started again.
pub proof fn nothing_restarts_after_shutdown(backoff: u64, outcome: RunOutcome)
    ensures
        supervised(backoff, outcome, true) is Stop,
{
}

/// A module that ended soon, or never came up, is started again after the wait that is due; the
/// next wait is twice as long, but no longer than half a minute.
pub proof fn a_module_that_ends_is_started_again(backoff: u64, uptime_ms: u64)
    requires
        1 <= backoff <= 30,
        uptime_ms < 60_000,
    ensures
        supervised(backoff, RunOutcome::SpawnFailed, false) == (Supervision::Restart {
            wait_secs: backoff,
            backoff: if backoff < 15 {
                (2 * backoff) as u64
            } else {
                30
            },
        }),
        supervised(backoff, RunOutcome::Exited { uptime_ms }, false) == supervised(
            backoff,
            RunOutcome::SpawnFailed,
            false,
        ),
        supervised(backoff, RunOutcome::Shutdown, false) is Stop,
{
}

/// The modules that are on are named in their order, each once, and so are those that are off.
pub proof fn every_module_is_named_once(a: Seq<ModuleConfig>, b: Seq<ModuleConfig>, m: ModuleConfig, on: bool)
    ensures
        names_where(a + b, on) == names_where(a, on) + names_where(b, on),
        m.enabled == on ==> names_where(seq![m], on) == seq![m.name@],
        m.enabled != on ==> names_where(seq![m], on).len() == 0,
    decreases b.len(),
{
    let one = seq![m];
    assert(one.drop_last() =~= Seq::empty());
    assert(one.last() == m);
    assert(names_where(one.drop_last(), on) =~= Seq::empty());
    if m.enabled == on {
        assert(names_where(one, on) =~= seq![m.name@]);
    }
    if b.len() == 0 {
        assert(a + b =~= a);
        assert(names_where(a, on) + names_where(b, on) =~= names_where(a, on));
    } else {
        every_module_is_named_once(a, b.drop_last(), m, on);
        assert((a + b).drop_last() =~= a + b.drop_last());
        assert((a + b).last() == b.last());
        assert(names_where(a + b, on) =~= names_where(a, on) + names_where(b, on));
    }
}

/// A module runs where it says, or else where the harness does.
pub proof fn a_module_runs_where_it_says(m: ModuleConfig, default: Seq<char>)
    ensures
        m.cwd is None ==> module_cwd(m, default) == default,
        m.cwd is Some ==> module_cwd(m, default) == m.cwd->0@,
{
}

} // verus!

//! The seam through which everything is spawned.
//!
//! A sandbox turns the description of a process into the command that runs it: on the host
//! as it stands, or wrapped in a container run with the isolation policy as flags. It spawns
//! nothing itself.

use vstd::prelude::*;

use crate::error::DackError;
use crate::strmap::{a_finite_set_has_an_order, in_order, orders, texts, StrMap};
use crate::text::{nat_text, owned, push_from, push_one, push_two, u64_text};

verus! {

/// What kind of work is run.
#[derive(Debug, Clone, Copy, PartialEq, Eq, Structural)]
pub enum ExecKind {
    /// A duty's sensor.
    Sensor,
    /// The model's bridge.
    Agent,
    /// A delegated worker.
    Worker,
    /// A side process of the harness.
    Module,
}

/// A mount of a host path into the guest.
#[derive(Debug)]
pub struct Mount {
    pub host: String,
    pub guest: String,
    pub writable: bool,
}

/// What a [`Mount`] holds.
#[verifier::ext_equal]
pub struct MountV {
    pub host: Seq<char>,
    pub guest: Seq<char>,
    pub writable: bool,
}

impl DeepView for Mount {
    type V = MountV;

    open spec fn deep_view(&self) -> MountV {
        MountV { host: self.host@, guest: self.guest@, writable: self.writable }
    }
}

/// How far a process may reach.
#[derive(Debug)]
pub enum NetworkPolicy {
    /// Nowhere.
    Closed,
    /// Only to itself.
    Loopback,
    /// Only to these hosts. Without a proxy that can hold it to them, this is nowhere.
    Allowlist(Vec<String>),
    /// Anywhere.
    Full,
}

/// What a [`NetworkPolicy`] holds.
pub enum NetworkV {
    Closed,
    Loopback,
    Allowlist(Seq<Seq<char>>),
    Full,
}

impl View for NetworkPolicy {
    type V = NetworkV;

    open spec fn view(&self) -> NetworkV {
        match self {
            NetworkPolicy::Closed => NetworkV::Closed,
            NetworkPolicy::Loopback => NetworkV::Loopback,
            NetworkPolicy::Allowlist(hosts) => NetworkV::Allowlist(hosts.deep_view()),
            NetworkPolicy::Full => NetworkV::Full,
        }
    }
}

/// The isolation of a process.
#[derive(Debug)]
pub struct IsolationPolicy {
    pub network: NetworkPolicy,
    pub read_only_rootfs: bool,
    /// What can be written where the root cannot.
    pub tmpfs: Vec<String>,
    pub pids_limit: Option<u32>,
    pub memory: Option<String>,
    pub drop_all_caps: bool,
    pub no_new_privileges: bool,
    pub user: Option<String>,
    pub image: String,
}

/// What an [`IsolationPolicy`] holds.
#[verifier::ext_equal]
pub struct PolicyV {
    pub network: NetworkV,
    pub read_only_rootfs: bool,
    pub tmpfs: Seq<Seq<char>>,
    pub pids_limit: Option<u32>,
    pub memory: Option<Seq<char>>,
    pub drop_all_caps: bool,
    pub no_new_privileges: bool,
    pub user: Option<Seq<char>>,
    pub image: Seq<char>,
}

impl View for IsolationPolicy {
    type V = PolicyV;

    open spec fn view(&self) -> PolicyV {
        PolicyV {
            network: self.network@,
            read_only_rootfs: self.read_only_rootfs,
            tmpfs: self.tmpfs.deep_view(),
            pids_limit: self.pids_limit,
            memory: self.memory.deep_view(),
            drop_all_caps: self.drop_all_caps,
            no_new_privileges: self.no_new_privileges,
            user: self.user.deep_view(),
            image: self.image@,
        }
    }
}

/// No isolation.
pub open spec fn passthrough() -> PolicyV {
    PolicyV {
        network: NetworkV::Full,
        read_only_rootfs: false,
        tmpfs: Seq::empty(),
        pids_limit: None,
        memory: None,
        drop_all_caps: false,
        no_new_privileges: false,
        user: None,
        image: Seq::empty(),
    }
}

/// Nothing but a scratch directory.
pub open spec fn locked(image: Seq<char>) -> PolicyV {
    PolicyV {
        network: NetworkV::Closed,
        read_only_rootfs: true,
        tmpfs: seq!["/tmp"@],
        pids_limit: Some(128),
        memory: Some("256m"@),
        drop_all_caps: true,
        no_new_privileges: true,
        user: Some("1000:1000"@),
        image,
    }
}

impl IsolationPolicy {
    /// No isolation: a run on the host.
    pub fn host_passthrough() -> (r: IsolationPolicy)
        ensures
            r@ == passthrough(),
    {
        let r = IsolationPolicy {
            network: NetworkPolicy::Full,
            read_only_rootfs: false,
            tmpfs: Vec::new(),
            pids_limit: None,
            memory: None,
            drop_all_caps: false,
            no_new_privileges: false,
            user: None,
            image: String::new(),
        };
        assert(r@ =~= passthrough());
        r
    }

    /// A container that can do next to nothing.
    pub fn locked_down(image: &str) -> (r: IsolationPolicy)
        ensures
            r@ == locked(image@),
    {
        let r = IsolationPolicy {
            network: NetworkPolicy::Closed,
            read_only_rootfs: true,
            tmpfs: vec![owned("/tmp")],
            pids_limit: Some(128),
            memory: Some(owned("256m")),
            drop_all_caps: true,
            no_new_privileges: true,
            user: Some(owned("1000:1000")),
            image: owned(image),
        };
        assert(r@ =~= locked(image@));
        r
    }
}

/// A process that is to be spawned.
#[derive(Debug)]
pub struct ProcessSpec {
    /// The program and its arguments.
    pub command: Vec<String>,
    pub cwd: String,
    pub env: StrMap<String>,
    /// Whether the process sees `env` and nothing else.
    pub clear_env: bool,
    pub kind: ExecKind,
    pub mounts: Vec<Mount>,
    pub policy: IsolationPolicy,
    /// The name of the container, by which it can be reaped.
    pub name: Option<String>,
}

/// What a [`ProcessSpec`] holds.
#[verifier::ext_equal]
pub struct ProcessV {
    pub command: Seq<Seq<char>>,
    pub cwd: Seq<char>,
    pub env: Map<Seq<char>, Seq<char>>,
    pub clear_env: bool,
    pub kind: ExecKind,
    pub mounts: Seq<MountV>,
    pub policy: PolicyV,
    pub name: Option<Seq<char>>,
}

impl View for ProcessSpec {
    type V = ProcessV;

    open spec fn view(&self) -> ProcessV {
        ProcessV {
            command: self.command.deep_view(),
            cwd: self.cwd@,
            env: texts(self.env),
            clear_env: self.clear_env,
            kind: self.kind,
            mounts: self.mounts.deep_view(),
            policy: self.policy@,
            name: self.name.deep_view(),
        }
    }
}

/// A command that can be spawned as it stands.
#[derive(Debug)]
pub struct CommandPlan {
    pub program: String,
    pub args: Vec<String>,
    /// Where it is spawned; where the harness stands if nothing is said.
    pub cwd: Option<String>,
    /// Whether it starts from an empty environment.
    pub clear_env: bool,
    /// What is laid over the environment.
    pub env: StrMap<String>,
}

/// What a [`CommandPlan`] holds.
#[verifier::ext_equal]
pub struct PlanV {
    pub program: Seq<char>,
    pub args: Seq<Seq<char>>,
    pub cwd: Option<Seq<char>>,
    pub clear_env: bool,
    pub env: Map<Seq<char>, Seq<char>>,
}

impl View for CommandPlan {
    type V = PlanV;

    open spec fn view(&self) -> PlanV {
        PlanV {
            program: self.program@,
            args: self.args.deep_view(),
            cwd: self.cwd.deep_view(),
            clear_env: self.clear_env,
            env: texts(self.env),
        }
    }
}

/// A backend that processes are spawned through.
pub trait Sandbox {
    /// The command that runs a process; nothing where the process cannot be run so.
    spec fn plan(&self, p: ProcessV) -> Option<PlanV>;

    fn command(&self, spec: &ProcessSpec) -> (r: Result<CommandPlan, DackError>)
        ensures
            match self.plan(spec@) {
                Some(v) => r is Ok && r->Ok_0@ == v,
                None => r is Err && r->Err_0 is Config,
            },
    ;
}

/// Runs on the host, without isolation.
#[derive(Debug)]
pub struct HostSandbox;

/// The command on the host: the process as it stands.
pub open spec fn host_plan(p: ProcessV) -> Option<PlanV> {
    if p.command.len() == 0 {
        None
    } else {
        Some(
            PlanV {
                program: p.command[0],
                args: p.command.skip(1),
                cwd: Some(p.cwd),
                clear_env: p.clear_env,
                env: p.env,
            },
        )
    }
}

impl Sandbox for HostSandbox {
    open spec fn plan(&self, p: ProcessV) -> Option<PlanV> {
        host_plan(p)
    }

    fn command(&self, spec: &ProcessSpec) -> (r: Result<CommandPlan, DackError>)
        ensures
            r is Err ==> (r->Err_0->Config_0)@ == "empty sandbox command"@,
    {
        assert(spec@.command.len() == spec.command@.len());
        if spec.command.len() == 0 {
            return Err(DackError::Config(owned("empty sandbox command")));
        }
        let mut args: Vec<String> = Vec::new();
        push_from(&mut args, &spec.command, 1);
        let plan = CommandPlan {
            program: spec.command[0].clone(),
            args,
            cwd: Some(spec.cwd.clone()),
            clear_env: spec.clear_env,
            env: spec.env.copy(),
        };
        assert(plan@.args =~= spec@.command.skip(1));
        assert(plan@.program == spec@.command[0]);
        Ok(plan)
    }
}

/// Runs in a container.
#[derive(Debug)]
pub struct DockerSandbox {
    pub docker_bin: String,
}

impl Default for DockerSandbox {
    fn default() -> (r: DockerSandbox)
        ensures
            r.docker_bin@ == "docker"@,
    {
        DockerSandbox { docker_bin: owned("docker") }
    }
}

/// A flag with a value, where there is one.
pub open spec fn flag_with(flag: Seq<char>, value: Option<Seq<char>>) -> Seq<Seq<char>> {
    match value {
        Some(v) => seq![flag, v],
        None => Seq::empty(),
    }
}

/// A flag, where it is set.
pub open spec fn flag_if(set: bool, flags: Seq<Seq<char>>) -> Seq<Seq<char>> {
    if set {
        flags
    } else {
        Seq::empty()
    }
}

/// A flag before each value.
pub open spec fn flag_each(flag: Seq<char>, values: Seq<Seq<char>>) -> Seq<Seq<char>>
    decreases values.len(),
{
    if values.len() == 0 {
        Seq::empty()
    } else {
        flag_each(flag, values.drop_last()) + seq![flag, values.last()]
    }
}

/// A mount as it is written on the command line.
pub open spec fn mount_text(m: MountV) -> Seq<char> {
    m.host + ":"@ + m.guest + ":"@ + if m.writable {
        "rw"@
    } else {
        "ro"@
    }
}

/// The network that a policy leaves. Only full reach leaves any.
pub open spec fn network_name(n: NetworkV) -> Seq<char> {
    if n is Full {
        "bridge"@
    } else {
        "none"@
    }
}

/// A number as a value.
pub open spec fn number_value(n: Option<u32>) -> Option<Seq<char>> {
    match n {
        Some(k) => Some(nat_text(k as nat)),
        None => None,
    }
}

/// The arguments of a container run. The environment is named and its values are inherited,
/// so no value is ever visible here.
pub open spec fn docker_args(p: ProcessV) -> Seq<Seq<char>> {
    seq!["run"@, "--rm"@, "-i"@, "--init"@] + flag_with("--name"@, p.name) + seq![
        "--network"@,
        network_name(p.policy.network),
    ] + flag_if(p.policy.read_only_rootfs, seq!["--read-only"@]) + flag_each(
        "--tmpfs"@,
        p.policy.tmpfs,
    ) + flag_with("--pids-limit"@, number_value(p.policy.pids_limit)) + flag_with(
        "--memory"@,
        p.policy.memory,
    ) + flag_if(p.policy.drop_all_caps, seq!["--cap-drop"@, "ALL"@]) + flag_if(
        p.policy.no_new_privileges,
        seq!["--security-opt"@, "no-new-privileges"@],
    ) + flag_with("--user"@, p.policy.user) + flag_each(
        "-v"@,
        p.mounts.map_values(|m: MountV| mount_text(m)),
    ) + seq!["-w"@, p.cwd] + flag_each("-e"@, in_order(p.env.dom())) + seq![p.policy.image]
        + p.command
}

/// The command in a container.
pub open spec fn docker_plan(docker_bin: Seq<char>, p: ProcessV) -> Option<PlanV> {
    if p.command.len() == 0 || p.policy.image.len() == 0 {
        None
    } else {
        Some(
            PlanV {
                program: docker_bin,
                args: docker_args(p),
                cwd: None,
                clear_env: false,
                env: p.env,
            },
        )
    }
}

fn push_opt(v: &mut Vec<String>, flag: &str, value: &Option<String>)
    ensures
        final(v).deep_view() == old(v).deep_view() + flag_with(flag@, value.deep_view()),
{
    match value {
        Some(x) => push_two(v, flag, x.as_str()),
        None => {
            assert(v.deep_view() =~= v.deep_view() + flag_with(flag@, None));
        },
    }
}

fn push_each(v: &mut Vec<String>, flag: &str, values: &Vec<String>)
    ensures
        final(v).deep_view() == old(v).deep_view() + flag_each(flag@, values.deep_view()),
{
    let ghost o = v.deep_view();
    let ghost all = values.deep_view();
    let mut i: usize = 0;
    assert(all.take(0) =~= Seq::empty());
    assert(o + flag_each(flag@, all.take(0)) =~= o);
    while i < values.len()
        invariant
            i <= values@.len(),
            all == values.deep_view(),
            v.deep_view() == o + flag_each(flag@, all.take(i as int)),
        decreases values@.len() - i,
    {
        proof {
            assert(all.take(i + 1).drop_last() =~= all.take(i as int));
            assert(all.take(i + 1).last() == values@[i as int]@);
        }
        push_two(v, flag, values[i].as_str());
        assert(v.deep_view() =~= o + flag_each(flag@, all.take(i + 1)));
        i += 1;
    }
    assert(all.take(i as int) =~= all);
}

fn mount_texts(v: &Vec<Mount>) -> (r: Vec<String>)
    ensures
        r.deep_view() == v.deep_view().map_values(|m: MountV| mount_text(m)),
{
    let mut out: Vec<String> = Vec::new();
    let mut i: usize = 0;
    while i < v.len()
        invariant
            i <= v@.len(),
            out@.len() == i,
            forall|k: int| 0 <= k < i ==> (#[trigger] out@[k])@ == mount_text(v@[k].deep_view()),
        decreases v@.len() - i,
    {
        let mut s = v[i].host.clone();
        s.append(":");
        s.append(v[i].guest.as_str());
        s.append(":");
        if v[i].writable {
            s.append("rw");
        } else {
            s.append("ro");
        }
        out.push(s);
        i += 1;
    }
    assert(out.deep_view() =~= v.deep_view().map_values(|m: MountV| mount_text(m)));
    out
}

fn key_list(m: &StrMap<String>) -> (r: Vec<String>)
    ensures
        r.deep_view() == in_order(texts(*m).dom()),
{
    let n: usize = m.len();
    assert(texts(*m).dom() =~= m@.dom());
    let mut out: Vec<String> = Vec::new();
    let mut i: usize = 0;
    while i < n
        invariant
            i <= n,
            n == m.keys().len(),
            out@.len() == i,
            forall|k: int| 0 <= k < i ==> (#[trigger] out@[k])@ == m.keys()[k],
        decreases n - i,
    {
        let (k, _v) = m.at(i);
        out.push(k.clone());
        i += 1;
    }
    assert(out.deep_view() =~= m.keys());
    out
}

impl Sandbox for DockerSandbox {
    open spec fn plan(&self, p: ProcessV) -> Option<PlanV> {
        docker_plan(self.docker_bin@, p)
    }

    fn command(&self, spec: &ProcessSpec) -> (r: Result<CommandPlan, DackError>)
        ensures
            r is Err ==> (r->Err_0->Config_0)@ == if spec@.command.len() == 0 {
                "empty sandbox command"@
            } else {
                "DockerSandbox needs policy.image"@
            },
    {
        assert(spec@.command.len() == spec.command@.len());
        if spec.command.len() == 0 {
            return Err(DackError::Config(owned("empty sandbox command")));
        }
        if spec.policy.image.as_str().is_empty() {
            return Err(DackError::Config(owned("DockerSandbox needs policy.image")));
        }
        let p = &spec.policy;
        let mut a: Vec<String> = vec![
            owned("run"),
            owned("--rm"),
            owned("-i"),
            owned("--init"),
        ];
        assert(a.deep_view() =~= seq!["run"@, "--rm"@, "-i"@, "--init"@]);
        push_opt(&mut a, "--name", &spec.name);
        let net = match &p.network {
            NetworkPolicy::Full => "bridge",
            _ => "none",
        };
        push_two(&mut a, "--network", net);
        if p.read_only_rootfs {
            push_one(&mut a, "--read-only");
        } else {
            assert(a.deep_view() =~= a.deep_view() + Seq::<Seq<char>>::empty());
        }
        push_each(&mut a, "--tmpfs", &p.tmpfs);
        let pids = match p.pids_limit {
            Some(n) => Some(u64_text(n as u64)),
            None => None,
        };
        push_opt(&mut a, "--pids-limit", &pids);
        push_opt(&mut a, "--memory", &p.memory);
        if p.drop_all_caps {
            push_two(&mut a, "--cap-drop", "ALL");
        } else {
            assert(a.deep_view() =~= a.deep_view() + Seq::<Seq<char>>::empty());
        }
        if p.no_new_privileges {
            push_two(&mut a, "--security-opt", "no-new-privileges");
        } else {
            assert(a.deep_view() =~= a.deep_view() + Seq::<Seq<char>>::empty());
        }
        push_opt(&mut a, "--user", &p.user);
        let mounts = mount_texts(&spec.mounts);
        push_each(&mut a, "-v", &mounts);
        push_two(&mut a, "-w", spec.cwd.as_str());
        let keys = key_list(&spec.env);
        push_each(&mut a, "-e", &keys);
        push_one(&mut a, p.image.as_str());
        assert(spec@.command.skip(0) =~= spec@.command);
        push_from(&mut a, &spec.command, 0);
        assert(a.deep_view() == docker_args(spec@));
        Ok(
            CommandPlan {
                program: self.docker_bin.clone(),
                args: a,
                cwd: None,
                clear_env: false,
                env: spec.env.copy(),
            },
        )
    }
}

// ── Laws ────────────────────────────────────────────────────────────────────────────────

/// No value of the environment shows on the command line: the arguments are the same whatever
/// the values are.
pub proof fn secrets_stay_off_the_command_line(p: ProcessV, env: Map<Seq<char>, Seq<char>>)
    requires
        env.dom() == p.env.dom(),
    ensures
        docker_args(ProcessV { env, ..p }) == docker_args(p),
{
}

/// What does not have full reach has none.
pub proof fn anything_short_of_full_reach_is_none(p: ProcessV)
    requires
        !(p.policy.network is Full),
    ensures
        exists|i: int|
            0 <= i < docker_args(p).len() - 1 && #[trigger] docker_args(p)[i] == "--network"@
                && docker_args(p)[i + 1] == "none"@,
{
    let head = seq!["run"@, "--rm"@, "-i"@, "--init"@] + flag_with("--name"@, p.name);
    let i = head.len() as int;
    assert(docker_args(p)[i] == "--network"@);
    assert(docker_args(p)[i + 1] == "none"@);
}

/// The work comes last on the line, as it was written, right behind the image.
pub proof fn the_work_comes_last(p: ProcessV)
    ensures
        docker_args(p).skip(docker_args(p).len() - p.command.len()) == p.command,
        docker_args(p)[docker_args(p).len() - p.command.len() - 1] == p.policy.image,
{
    assert(docker_args(p).skip(docker_args(p).len() - p.command.len()) =~= p.command);
}

/// Two arguments stand next to each other.
pub open spec fn has_pair(args: Seq<Seq<char>>, a: Seq<char>, b: Seq<char>) -> bool {
    exists|i: int| 0 <= i < args.len() - 1 && #[trigger] args[i] == a && args[i + 1] == b
}

proof fn each_value_has_its_flag(flag: Seq<char>, values: Seq<Seq<char>>, i: int)
    requires
        0 <= i < values.len(),
    ensures
        has_pair(flag_each(flag, values), flag, values[i]),
    decreases values.len(),
{
    let rest = flag_each(flag, values.drop_last());
    let all = flag_each(flag, values);
    arguments_stay(rest, seq![flag, values.last()]);
    one_pair(flag, values.last());
    if i < values.len() - 1 {
        assert(values.drop_last()[i] == values[i]);
        each_value_has_its_flag(flag, values.drop_last(), i);
    }
    assert(has_pair(all, flag, values[i]));
}

/// A container is held as its policy says: by its network, its memory, its processes, its user and
/// its privileges; it gets every mount, as one to write or one to read, and every variable by its
/// name, and it works where it was told to.
pub proof fn a_container_is_held_by_its_policy(p: ProcessV, i: int, j: int, v: Seq<char>)
    requires
        p.env.dom().finite(),
    ensures
        ({
            let a = docker_args(p);
            &&& p.policy.network is Full ==> has_pair(a, "--network"@, "bridge"@)
            &&& !(p.policy.network is Full) ==> has_pair(a, "--network"@, "none"@)
            &&& p.policy.read_only_rootfs ==> a.contains("--read-only"@)
            &&& p.policy.drop_all_caps ==> has_pair(a, "--cap-drop"@, "ALL"@)
            &&& p.policy.no_new_privileges ==> has_pair(
                a,
                "--security-opt"@,
                "no-new-privileges"@,
            )
            &&& p.policy.memory matches Some(m) ==> has_pair(a, "--memory"@, m)
            &&& p.policy.pids_limit matches Some(n) ==> has_pair(
                a,
                "--pids-limit"@,
                nat_text(n as nat),
            )
            &&& p.policy.user matches Some(u) ==> has_pair(a, "--user"@, u)
            &&& p.name matches Some(n) ==> has_pair(a, "--name"@, n)
            &&& has_pair(a, "-w"@, p.cwd)
            &&& 0 <= i < p.policy.tmpfs.len() ==> has_pair(a, "--tmpfs"@, p.policy.tmpfs[i])
            &&& 0 <= j < p.mounts.len() ==> has_pair(
                a,
                "-v"@,
                p.mounts[j].host + ":"@ + p.mounts[j].guest + if p.mounts[j].writable {
                    ":rw"@
                } else {
                    ":ro"@
                },
            )
            &&& p.env.contains_key(v) ==> has_pair(a, "-e"@, v)
        }),
{
    let s0 = seq!["run"@, "--rm"@, "-i"@, "--init"@];
    let s1 = flag_with("--name"@, p.name);
    let s2 = seq!["--network"@, network_name(p.policy.network)];
    let s3 = flag_if(p.policy.read_only_rootfs, seq!["--read-only"@]);
    let s4 = flag_each("--tmpfs"@, p.policy.tmpfs);
    let s5 = flag_with("--pids-limit"@, number_value(p.policy.pids_limit));
    let s6 = flag_with("--memory"@, p.policy.memory);
    let s7 = flag_if(p.policy.drop_all_caps, seq!["--cap-drop"@, "ALL"@]);
    let s8 = flag_if(p.policy.no_new_privileges, seq!["--security-opt"@, "no-new-privileges"@]);
    let s9 = flag_with("--user"@, p.policy.user);
    let mounts = p.mounts.map_values(|m: MountV| mount_text(m));
    let s10 = flag_each("-v"@, mounts);
    let s11 = seq!["-w"@, p.cwd];
    let s12 = flag_each("-e"@, in_order(p.env.dom()));
    let s13 = seq![p.policy.image];
    let h1 = s0 + s1;
    let h2 = h1 + s2;
    let h3 = h2 + s3;
    let h4 = h3 + s4;
    let h5 = h4 + s5;
    let h6 = h5 + s6;
    let h7 = h6 + s7;
    let h8 = h7 + s8;
    let h9 = h8 + s9;
    let h10 = h9 + s10;
    let h11 = h10 + s11;
    let h12 = h11 + s12;
    let h13 = h12 + s13;
    assert(docker_args(p) == h13 + p.command);
    arguments_stay(s0, s1);
    arguments_stay(h1, s2);
    arguments_stay(h2, s3);
    arguments_stay(h3, s4);
    arguments_stay(h4, s5);
    arguments_stay(h5, s6);
    arguments_stay(h6, s7);
    arguments_stay(h7, s8);
    arguments_stay(h8, s9);
    arguments_stay(h9, s10);
    arguments_stay(h10, s11);
    arguments_stay(h11, s12);
    arguments_stay(h12, s13);
    arguments_stay(h13, p.command);
    one_pair("--network"@, network_name(p.policy.network));
    one_pair("-w"@, p.cwd);
    one_pair("--cap-drop"@, "ALL"@);
    one_pair("--security-opt"@, "no-new-privileges"@);
    if p.name is Some {
        one_pair("--name"@, p.name->0);
    }
    if p.policy.pids_limit is Some {
        one_pair("--pids-limit"@, nat_text(p.policy.pids_limit->0 as nat));
    }
    if p.policy.memory is Some {
        one_pair("--memory"@, p.policy.memory->0);
    }
    if p.policy.user is Some {
        one_pair("--user"@, p.policy.user->0);
    }
    assert(seq!["--read-only"@].contains("--read-only"@)) by {
        assert(seq!["--read-only"@][0] == "--read-only"@);
    }
    if 0 <= i < p.policy.tmpfs.len() {
        each_value_has_its_flag("--tmpfs"@, p.policy.tmpfs, i);
    }
    if 0 <= j < p.mounts.len() {
        reveal_strlit(":");
        reveal_strlit("rw");
        reveal_strlit("ro");
        reveal_strlit(":rw");
        reveal_strlit(":ro");
        let m = p.mounts[j];
        each_value_has_its_flag("-v"@, mounts, j);
        assert(mounts[j] =~= m.host + ":"@ + m.guest + if m.writable {
            ":rw"@
        } else {
            ":ro"@
        });
    }
    if p.env.contains_key(v) {
        let o = in_order(p.env.dom());
        a_finite_set_has_an_order(p.env.dom());
        assert(orders(o, p.env.dom()));
        assert(p.env.dom().contains(v));
        assert(o.contains(v));
        let k = choose|k: int| 0 <= k < o.len() && o[k] == v;
        each_value_has_its_flag("-e"@, o, k);
    }
}

proof fn one_pair(a: Seq<char>, b: Seq<char>)
    ensures
        has_pair(seq![a, b], a, b),
{
    assert(seq![a, b][0] == a);
}

proof fn arguments_stay(a: Seq<Seq<char>>, b: Seq<Seq<char>>)
    ensures
        forall|x: Seq<char>, y: Seq<char>|
            has_pair(a, x, y) || has_pair(b, x, y) ==> #[trigger] has_pair(a + b, x, y),
        forall|x: Seq<char>| a.contains(x) || b.contains(x) ==> #[trigger] (a + b).contains(x),
{
    let s = a + b;
    assert forall|x: Seq<char>, y: Seq<char>|
        has_pair(a, x, y) || has_pair(b, x, y) implies #[trigger] has_pair(s, x, y) by {
        if has_pair(a, x, y) {
            let i = choose|i: int| 0 <= i < a.len() - 1 && #[trigger] a[i] == x && a[i + 1] == y;
            assert(s[i] == x && s[i + 1] == y);
        } else {
            let i = choose|i: int| 0 <= i < b.len() - 1 && #[trigger] b[i] == x && b[i + 1] == y;
            assert(s[a.len() + i] == x && s[a.len() + i + 1] == y);
        }
    }
    assert forall|x: Seq<char>| a.contains(x) || b.contains(x) implies #[trigger] s.contains(x) by {
        if a.contains(x) {
            let i = choose|i: int| 0 <= i < a.len() && a[i] == x;
            assert(s[i] == x);
        } else {
            let i = choose|i: int| 0 <= i < b.len() && b[i] == x;
            assert(s[a.len() + i] == x);
        }
    }
}

/// A container is run once, in the foreground, and removed when it is done.
pub proof fn a_container_is_run_once(p: ProcessV)
    ensures
        docker_args(p).take(4) == seq!["run"@, "--rm"@, "-i"@, "--init"@],
{
    assert(docker_args(p).take(4) =~= seq!["run"@, "--rm"@, "-i"@, "--init"@]);
}

/// A command runs on the host as it stands, where it was told to and with its variables; nothing
/// runs without a command, and no container without an image.
pub proof fn a_command_runs_as_it_stands(p: ProcessV, bin: Seq<char>)
    ensures
        p.command.len() > 0 ==> host_plan(p) == Some(
            PlanV {
                program: p.command[0],
                args: p.command.subrange(1, p.command.len() as int),
                cwd: Some(p.cwd),
                clear_env: p.clear_env,
                env: p.env,
            },
        ),
        p.command.len() == 0 ==> host_plan(p) is None && docker_plan(bin, p) is None,
        p.policy.image.len() == 0 ==> docker_plan(bin, p) is None,
        p.command.len() > 0 && p.policy.image.len() > 0 ==> docker_plan(bin, p) is Some
            && docker_plan(bin, p)->0.program == bin && docker_plan(bin, p)->0.args == docker_args(
            p,
        ) && docker_plan(bin, p)->0.env == p.env && docker_plan(bin, p)->0.cwd is None
            && !docker_plan(bin, p)->0.clear_env,
{
}

/// The locked policy shuts everything: no network, no write to the root, no privileges, few
/// processes and little memory, as a user of no standing.
pub proof fn the_locked_policy_shuts_everything(image: Seq<char>)
    ensures
        locked(image).network is Closed,
        locked(image).read_only_rootfs,
        locked(image).drop_all_caps,
        locked(image).no_new_privileges,
        locked(image).pids_limit == Some(128u32),
        locked(image).memory == Some("256m"@),
        locked(image).user == Some("1000:1000"@),
        locked(image).tmpfs == seq!["/tmp"@],
        locked(image).image == image,
        passthrough().network is Full,
        !passthrough().read_only_rootfs && !passthrough().drop_all_caps
            && !passthrough().no_new_privileges,
        passthrough().memory is None && passthrough().pids_limit is None && passthrough().user is None,
{
}

} // verus!

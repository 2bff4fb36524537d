use vstd::prelude::*;

use crate::error::{EngineFailure, FailureModel};
use crate::image::IMAGE_NAME;
use crate::names::{container_name, sanitized, temp_image_name};
use crate::registry::views;
use crate::text::{
    chars_of, decimal, push_all, push_decimal, string_from_chars, trimmed, trim_text,
};

verus! {

/// How a jail's container is launched.
pub struct LaunchConfig {
    /// Host directory of the workspace.
    pub host_workspace: String,
    /// Name of the workspace directory, mounted at `/<name>`.
    pub workspace_dir: String,
    /// Ports to publish where the engine cannot share the host's network.
    pub ports: Vec<u16>,
    /// The host is macOS, whose engines run in a VM without host networking.
    pub macos: bool,
    /// Extra arguments that forward the SSH agent, if it can be forwarded.
    pub ssh_args: Option<Vec<String>>,
}

/// The working directory inside the container.
pub open spec fn workdir(ws: Seq<char>) -> Seq<char> {
    seq!['/'] + ws
}

/// The bind mount of the workspace: `<host>:/<workspace>`.
pub open spec fn mount_spec(host: Seq<char>, ws: Seq<char>) -> Seq<char> {
    host + seq![':'] + workdir(ws)
}

/// `<port>:<port>`.
pub open spec fn port_pair(p: u16) -> Seq<char> {
    decimal(p as nat) + seq![':'] + decimal(p as nat)
}

/// `-p <port>:<port>` for each port, in order.
pub open spec fn port_args(ports: Seq<u16>) -> Seq<Seq<char>>
    decreases ports.len(),
{
    if ports.len() == 0 {
        Seq::empty()
    } else {
        port_args(ports.drop_last()) + seq!["-p"@, port_pair(ports.last())]
    }
}

/// The networking arguments: published ports on macOS, host networking elsewhere.
pub open spec fn network_args(c: LaunchConfig) -> Seq<Seq<char>> {
    if c.macos {
        port_args(c.ports@)
    } else {
        seq!["--network=host"@]
    }
}

/// Mount, working directory and user of the container.
pub open spec fn workspace_args(c: LaunchConfig) -> Seq<Seq<char>> {
    seq![
        "-v"@,
        mount_spec(c.host_workspace@, c.workspace_dir@),
        "-w"@,
        workdir(c.workspace_dir@),
        "--user"@,
        "dev"@,
    ]
}

/// The SSH agent forwarding arguments, if any.
pub open spec fn ssh_args_spec(c: LaunchConfig) -> Seq<Seq<char>> {
    match c.ssh_args {
        Some(a) => views(a@),
        None => Seq::empty(),
    }
}

/// The engine arguments that create container `name` from `image`.
pub open spec fn run_args_spec(c: LaunchConfig, name: Seq<char>, image: Seq<char>) -> Seq<
    Seq<char>,
> {
    seq!["run"@, "-d"@, "-it"@, "--name"@, name] + network_args(c) + workspace_args(c)
        + ssh_args_spec(c) + seq![image, "/bin/bash"@]
}

/// Appends `-p <port>:<port>` for each port.
fn push_port_args(args: &mut Vec<String>, ports: &Vec<u16>)
    ensures
        views(final(args)@) == views(old(args)@) + port_args(ports@),
{
    let ghost start = views(args@);
    let mut i: usize = 0;
    while i < ports.len()
        invariant
            i <= ports@.len(),
            views(args@) == start + port_args(ports@.take(i as int)),
        decreases ports@.len() - i,
    {
        let p = ports[i];
        let mut pair: Vec<char> = Vec::new();
        push_decimal(&mut pair, p);
        pair.push(':');
        push_decimal(&mut pair, p);
        let ghost before = args@;
        args.push("-p".to_owned());
        args.push(string_from_chars(&pair));
        assert(ports@.take(i + 1).drop_last() =~= ports@.take(i as int));
        assert(pair@ =~= port_pair(p));
        assert(views(args@) =~= views(before) + seq!["-p"@, port_pair(p)]);
        i = i + 1;
    }
    assert(ports@.take(ports@.len() as int) =~= ports@);
}

/// Appends the given strings.
fn push_strings(args: &mut Vec<String>, more: &Vec<String>)
    ensures
        views(final(args)@) == views(old(args)@) + views(more@),
{
    let ghost start = views(args@);
    let mut i: usize = 0;
    while i < more.len()
        invariant
            i <= more@.len(),
            views(args@) == start + views(more@.take(i as int)),
        decreases more@.len() - i,
    {
        let ghost before = args@;
        args.push(more[i].clone());
        assert(views(args@) =~= views(before).push(more@[i as int]@));
        assert(views(more@.take(i + 1)) =~= views(more@.take(i as int)).push(more@[i as int]@));
        i = i + 1;
    }
    assert(more@.take(more@.len() as int) =~= more@);
}

/// The engine arguments that create container `name` of a jail from `image`.
pub fn run_args(c: &LaunchConfig, name: &str, image: &str) -> (r: Vec<String>)
    ensures
        views(r@) == run_args_spec(*c, name@, image@),
{
    let mut args: Vec<String> = Vec::new();
    args.push("run".to_owned());
    args.push("-d".to_owned());
    args.push("-it".to_owned());
    args.push("--name".to_owned());
    args.push(name.to_owned());
    let ghost head = views(args@);
    assert(head =~= seq!["run"@, "-d"@, "-it"@, "--name"@, name@]);
    if c.macos {
        push_port_args(&mut args, &c.ports);
    } else {
        args.push("--network=host".to_owned());
        assert(views(args@) =~= head + seq!["--network=host"@]);
    }
    let ghost with_net = views(args@);
    let mut wd: Vec<char> = Vec::new();
    wd.push('/');
    push_all(&mut wd, &chars_of(c.workspace_dir.as_str()));
    let mut mnt = chars_of(c.host_workspace.as_str());
    mnt.push(':');
    push_all(&mut mnt, &wd);
    assert(wd@ =~= workdir(c.workspace_dir@));
    assert(mnt@ =~= mount_spec(c.host_workspace@, c.workspace_dir@));
    args.push("-v".to_owned());
    args.push(string_from_chars(&mnt));
    args.push("-w".to_owned());
    args.push(string_from_chars(&wd));
    args.push("--user".to_owned());
    args.push("dev".to_owned());
    assert(views(args@) =~= with_net + workspace_args(*c));
    let ghost with_ws = views(args@);
    match &c.ssh_args {
        Some(a) => push_strings(&mut args, a),
        None => {
            assert(views(args@) =~= with_ws + Seq::<Seq<char>>::empty());
        },
    }
    let ghost with_ssh = views(args@);
    args.push(image.to_owned());
    args.push("/bin/bash".to_owned());
    assert(views(args@) =~= with_ssh + seq![image@, "/bin/bash"@]);
    args
}

/// What the engine answered to a call: whether it exited with success, and
/// what it wrote to standard output and standard error.
#[derive(Debug, PartialEq, Eq)]
pub struct Reply {
    /// The command exited with success.
    pub ok: bool,
    /// Its standard output.
    pub stdout: String,
    /// Its standard error.
    pub stderr: String,
}

/// Where a reconciliation stands, waiting for the reply to its last call.
#[derive(Debug, PartialEq, Eq)]
pub enum Phase {
    /// Waiting for the ids of all containers of the jail's name.
    Inspect,
    /// The container exists; waiting to learn whether it runs.
    CheckRunning(String),
    /// Waiting for the stopped container to start.
    Starting(String),
    /// Waiting for the container to stop before it is committed.
    Stopping(String),
    /// Waiting for the commit of the container to the throwaway image.
    Committing(String),
    /// Waiting for the old container to be removed.
    Removing(String),
    /// Waiting for a new container; `true` when made from the throwaway image.
    Creating(bool),
    /// Waiting for the throwaway image to be deleted; holds the new id. The
    /// deletion is best effort: an engine may keep an image a container uses.
    DroppingImage(String),
    /// Nothing more to do.
    Done,
}

/// A phase, with its ids as character sequences.
pub enum PhaseModel {
    Inspect,
    CheckRunning(Seq<char>),
    Starting(Seq<char>),
    Stopping(Seq<char>),
    Committing(Seq<char>),
    Removing(Seq<char>),
    Creating(bool),
    DroppingImage(Seq<char>),
    Done,
}

impl View for Phase {
    type V = PhaseModel;

    open spec fn view(&self) -> PhaseModel {
        match self {
            Phase::Inspect => PhaseModel::Inspect,
            Phase::CheckRunning(id) => PhaseModel::CheckRunning(id@),
            Phase::Starting(id) => PhaseModel::Starting(id@),
            Phase::Stopping(id) => PhaseModel::Stopping(id@),
            Phase::Committing(id) => PhaseModel::Committing(id@),
            Phase::Removing(id) => PhaseModel::Removing(id@),
            Phase::Creating(t) => PhaseModel::Creating(*t),
            Phase::DroppingImage(id) => PhaseModel::DroppingImage(id@),
            Phase::Done => PhaseModel::Done,
        }
    }
}

/// A command for the engine.
#[derive(Debug, PartialEq, Eq)]
pub enum EngineCall {
    /// The ids of all containers, running or not, named exactly so.
    ListAll(String),
    /// The ids of the running containers named exactly so.
    ListRunning(String),
    /// Start a container.
    Start(String),
    /// Stop a container.
    Stop(String),
    /// Commit a container to an image.
    Commit(String, String),
    /// Remove a container.
    Remove(String),
    /// Create and start a container with these arguments.
    Run(Vec<String>),
    /// Delete an image.
    RemoveImage(String),
}

/// An engine call, with its strings as character sequences.
pub enum CallModel {
    ListAll(Seq<char>),
    ListRunning(Seq<char>),
    Start(Seq<char>),
    Stop(Seq<char>),
    Commit(Seq<char>, Seq<char>),
    Remove(Seq<char>),
    Run(Seq<Seq<char>>),
    RemoveImage(Seq<char>),
}

impl View for EngineCall {
    type V = CallModel;

    open spec fn view(&self) -> CallModel {
        match self {
            EngineCall::ListAll(n) => CallModel::ListAll(n@),
            EngineCall::ListRunning(n) => CallModel::ListRunning(n@),
            EngineCall::Start(id) => CallModel::Start(id@),
            EngineCall::Stop(id) => CallModel::Stop(id@),
            EngineCall::Commit(id, image) => CallModel::Commit(id@, image@),
            EngineCall::Remove(id) => CallModel::Remove(id@),
            EngineCall::Run(args) => CallModel::Run(views(args@)),
            EngineCall::RemoveImage(image) => CallModel::RemoveImage(image@),
        }
    }
}

/// What a reconciliation does next.
#[derive(Debug, PartialEq, Eq)]
pub enum Step {
    /// Make this call and hand its reply back.
    Call(EngineCall),
    /// The container with this id exists and runs.
    Finished(String),
    /// Stop with this failure.
    Failed(EngineFailure),
}

/// A step, with its strings as character sequences.
pub enum StepModel {
    Call(CallModel),
    Finished(Seq<char>),
    Failed(FailureModel),
}

impl View for Step {
    type V = StepModel;

    open spec fn view(&self) -> StepModel {
        match self {
            Step::Call(c) => StepModel::Call(c@),
            Step::Finished(id) => StepModel::Finished(id@),
            Step::Failed(f) => StepModel::Failed(f@),
        }
    }
}

/// Brings one jail's container to a running state that matches its launch
/// configuration, one engine call at a time.
pub struct Reconciler {
    /// The container's name.
    pub container: String,
    /// The throwaway image used when the container is recreated.
    pub temp_image: String,
    /// Arguments that create the container from the base image.
    pub fresh_args: Vec<String>,
    /// Arguments that create the container from the throwaway image.
    pub recreate_args: Vec<String>,
    /// The launch configuration changed, so an existing container is recreated.
    pub recreate: bool,
    /// Where the reconciliation stands.
    pub phase: Phase,
}

/// The next phase and step of reconciler `r` in `phase` on `reply`.
pub open spec fn next(r: Reconciler, phase: PhaseModel, reply: Reply) -> (PhaseModel, StepModel) {
    let out = trimmed(reply.stdout@);
    let err = reply.stderr@;
    match phase {
        PhaseModel::Inspect => if !reply.ok {
            (PhaseModel::Done, StepModel::Failed(FailureModel::Inspect(err)))
        } else if out.len() == 0 {
            (PhaseModel::Creating(false), StepModel::Call(CallModel::Run(views(r.fresh_args@))))
        } else if r.recreate {
            (PhaseModel::Stopping(out), StepModel::Call(CallModel::Stop(out)))
        } else {
            (PhaseModel::CheckRunning(out), StepModel::Call(CallModel::ListRunning(r.container@)))
        },
        PhaseModel::CheckRunning(id) => if !reply.ok {
            (PhaseModel::Done, StepModel::Failed(FailureModel::Inspect(err)))
        } else if out.len() > 0 {
            (PhaseModel::Done, StepModel::Finished(id))
        } else {
            (PhaseModel::Starting(id), StepModel::Call(CallModel::Start(id)))
        },
        PhaseModel::Starting(id) => if reply.ok {
            (PhaseModel::Done, StepModel::Finished(id))
        } else {
            (PhaseModel::Done, StepModel::Failed(FailureModel::Start(err)))
        },
        PhaseModel::Stopping(id) => if reply.ok {
            (PhaseModel::Committing(id), StepModel::Call(CallModel::Commit(id, r.temp_image@)))
        } else {
            (PhaseModel::Done, StepModel::Failed(FailureModel::Stop(err)))
        },
        PhaseModel::Committing(id) => if reply.ok {
            (PhaseModel::Removing(id), StepModel::Call(CallModel::Remove(id)))
        } else {
            (PhaseModel::Done, StepModel::Failed(FailureModel::Commit(err)))
        },
        PhaseModel::Removing(id) => if reply.ok {
            (PhaseModel::Creating(true), StepModel::Call(CallModel::Run(views(r.recreate_args@))))
        } else {
            (PhaseModel::Done, StepModel::Failed(FailureModel::Remove(err)))
        },
        PhaseModel::Creating(from_temp) => if !reply.ok {
            (PhaseModel::Done, StepModel::Failed(FailureModel::Create(err)))
        } else if from_temp {
            (PhaseModel::DroppingImage(out), StepModel::Call(CallModel::RemoveImage(r.temp_image@)))
        } else {
            (PhaseModel::Done, StepModel::Finished(out))
        },
        PhaseModel::DroppingImage(id) => (PhaseModel::Done, StepModel::Finished(id)),
        PhaseModel::Done => (PhaseModel::Done, StepModel::Failed(FailureModel::AfterEnd)),
    }
}

/// The steps of reconciler `r`, from `phase`, on the successive replies.
pub open spec fn trace(r: Reconciler, phase: PhaseModel, replies: Seq<Reply>) -> Seq<StepModel>
    decreases replies.len(),
{
    if replies.len() == 0 {
        Seq::empty()
    } else {
        let (p, s) = next(r, phase, replies[0]);
        seq![s] + trace(r, p, replies.drop_first())
    }
}

impl Reconciler {
    /// A reconciler for the container of jail `jail_name`, and its first call:
    /// the listing of the containers of that name.
    pub fn new(jail_name: &str, c: &LaunchConfig, recreate: bool) -> (r: (Reconciler, EngineCall))
        ensures
            r.0.container@ == "jail-"@ + sanitized(jail_name@),
            r.0.temp_image@ == "jail-temp-"@ + sanitized(jail_name@),
            views(r.0.fresh_args@) == run_args_spec(*c, r.0.container@, IMAGE_NAME@),
            views(r.0.recreate_args@) == run_args_spec(*c, r.0.container@, r.0.temp_image@),
            r.0.recreate == recreate,
            r.0.phase@ == PhaseModel::Inspect,
            r.1@ == CallModel::ListAll(r.0.container@),
    {
        let container = container_name(jail_name);
        let temp_image = temp_image_name(jail_name);
        let fresh_args = run_args(c, container.as_str(), IMAGE_NAME);
        let recreate_args = run_args(c, container.as_str(), temp_image.as_str());
        let first = EngineCall::ListAll(container.clone());
        (Reconciler { container, temp_image, fresh_args, recreate_args, recreate, phase: Phase::Inspect }, first)
    }

    fn transition(&self, reply: &Reply) -> (r: (Phase, Step))
        ensures
            (r.0@, r.1@) == next(*self, self.phase@, *reply),
    {
        let out = trim_text(reply.stdout.as_str());
        let none = out.as_str().is_empty();
        match &self.phase {
            Phase::Inspect => {
                if !reply.ok {
                    (Phase::Done, Step::Failed(EngineFailure::Inspect(reply.stderr.clone())))
                } else if none {
                    (Phase::Creating(false), Step::Call(EngineCall::Run(self.fresh_args.clone())))
                } else if self.recreate {
                    (Phase::Stopping(out.clone()), Step::Call(EngineCall::Stop(out)))
                } else {
                    (
                        Phase::CheckRunning(out),
                        Step::Call(EngineCall::ListRunning(self.container.clone())),
                    )
                }
            },
            Phase::CheckRunning(id) => {
                if !reply.ok {
                    (Phase::Done, Step::Failed(EngineFailure::Inspect(reply.stderr.clone())))
                } else if !none {
                    (Phase::Done, Step::Finished(id.clone()))
                } else {
                    (Phase::Starting(id.clone()), Step::Call(EngineCall::Start(id.clone())))
                }
            },
            Phase::Starting(id) => {
                if reply.ok {
                    (Phase::Done, Step::Finished(id.clone()))
                } else {
                    (Phase::Done, Step::Failed(EngineFailure::Start(reply.stderr.clone())))
                }
            },
            Phase::Stopping(id) => {
                if reply.ok {
                    (
                        Phase::Committing(id.clone()),
                        Step::Call(EngineCall::Commit(id.clone(), self.temp_image.clone())),
                    )
                } else {
                    (Phase::Done, Step::Failed(EngineFailure::Stop(reply.stderr.clone())))
                }
            },
            Phase::Committing(id) => {
                if reply.ok {
                    (Phase::Removing(id.clone()), Step::Call(EngineCall::Remove(id.clone())))
                } else {
                    (Phase::Done, Step::Failed(EngineFailure::Commit(reply.stderr.clone())))
                }
            },
            Phase::Removing(id) => {
                if reply.ok {
                    (Phase::Creating(true), Step::Call(EngineCall::Run(self.recreate_args.clone())))
                } else {
                    (Phase::Done, Step::Failed(EngineFailure::Remove(reply.stderr.clone())))
                }
            },
            Phase::Creating(from_temp) => {
                if !reply.ok {
                    (Phase::Done, Step::Failed(EngineFailure::Create(reply.stderr.clone())))
                } else if *from_temp {
                    (
                        Phase::DroppingImage(out),
                        Step::Call(EngineCall::RemoveImage(self.temp_image.clone())),
                    )
                } else {
                    (Phase::Done, Step::Finished(out))
                }
            },
            Phase::DroppingImage(id) => (Phase::Done, Step::Finished(id.clone())),
            Phase::Done => (Phase::Done, Step::Failed(EngineFailure::AfterEnd)),
        }
    }

    /// Takes the reply to the last call and says what to do next.
    pub fn step(&mut self, reply: &Reply) -> (s: Step)
        ensures
            (final(self).phase@, s@) == next(*old(self), old(self).phase@, *reply),
            final(self).container == old(self).container,
            final(self).temp_image == old(self).temp_image,
            final(self).fresh_args == old(self).fresh_args,
            final(self).recreate_args == old(self).recreate_args,
            final(self).recreate == old(self).recreate,
    {
        let (phase, s) = self.transition(reply);
        self.phase = phase;
        s
    }
}

/// `name=^<name>$`: a filter on exactly this container name.
pub open spec fn exact_name_filter(name: Seq<char>) -> Seq<char> {
    "name=^"@ + name + seq!['$']
}

/// The engine's command-line arguments for a call.
pub open spec fn engine_args_spec(call: CallModel) -> Seq<Seq<char>> {
    match call {
        CallModel::ListAll(n) => seq!["ps"@, "-aq"@, "-f"@, exact_name_filter(n)],
        CallModel::ListRunning(n) => seq!["ps"@, "-q"@, "-f"@, exact_name_filter(n)],
        CallModel::Start(id) => seq!["start"@, id],
        CallModel::Stop(id) => seq!["stop"@, id],
        CallModel::Commit(id, image) => seq!["commit"@, id, image],
        CallModel::Remove(id) => seq!["rm"@, id],
        CallModel::Run(args) => args,
        CallModel::RemoveImage(image) => seq!["rmi"@, image],
    }
}

fn exact_name_arg(name: &String) -> (r: String)
    ensures
        r@ == exact_name_filter(name@),
{
    let mut v = chars_of("name=^");
    push_all(&mut v, &chars_of(name.as_str()));
    v.push('$');
    string_from_chars(&v)
}

/// The engine's command-line arguments for `call`.
pub fn engine_args(call: &EngineCall) -> (r: Vec<String>)
    ensures
        views(r@) == engine_args_spec(call@),
{
    let mut v: Vec<String> = Vec::new();
    match call {
        EngineCall::ListAll(n) => {
            v.push("ps".to_owned());
            v.push("-aq".to_owned());
            v.push("-f".to_owned());
            v.push(exact_name_arg(n));
        },
        EngineCall::ListRunning(n) => {
            v.push("ps".to_owned());
            v.push("-q".to_owned());
            v.push("-f".to_owned());
            v.push(exact_name_arg(n));
        },
        EngineCall::Start(id) => {
            v.push("start".to_owned());
            v.push(id.clone());
        },
        EngineCall::Stop(id) => {
            v.push("stop".to_owned());
            v.push(id.clone());
        },
        EngineCall::Commit(id, image) => {
            v.push("commit".to_owned());
            v.push(id.clone());
            v.push(image.clone());
        },
        EngineCall::Remove(id) => {
            v.push("rm".to_owned());
            v.push(id.clone());
        },
        EngineCall::Run(args) => {
            return args.clone();
        },
        EngineCall::RemoveImage(image) => {
            v.push("rmi".to_owned());
            v.push(image.clone());
        },
    }
    assert(views(v@) =~= engine_args_spec(call@));
    v
}

/// A step that neither creates nor commits a container, and that finishes, if
/// it does, with container `id`.
pub open spec fn keeps_container(s: StepModel, id: Seq<char>) -> bool {
    match s {
        StepModel::Call(CallModel::Run(_)) => false,
        StepModel::Call(CallModel::Commit(_, _)) => false,
        StepModel::Finished(x) => x == id,
        _ => true,
    }
}

/// A step that removes a container, creates one, or deletes an image.
pub open spec fn destroys_or_replaces(s: StepModel) -> bool {
    ||| s matches StepModel::Call(CallModel::Remove(_))
    ||| s matches StepModel::Call(CallModel::Run(_))
    ||| s matches StepModel::Call(CallModel::RemoveImage(_))
}

/// One step of a trace.
proof fn lemma_trace_step(r: Reconciler, phase: PhaseModel, replies: Seq<Reply>)
    requires
        replies.len() > 0,
    ensures
        trace(r, phase, replies) == seq![next(r, phase, replies[0]).1] + trace(
            r,
            next(r, phase, replies[0]).0,
            replies.drop_first(),
        ),
        trace(r, phase, replies)[0] == next(r, phase, replies[0]).1,
{
}

/// A trace has one step per reply.
proof fn lemma_trace_len(r: Reconciler, phase: PhaseModel, replies: Seq<Reply>)
    ensures
        trace(r, phase, replies).len() == replies.len(),
    decreases replies.len(),
{
    if replies.len() > 0 {
        lemma_trace_len(r, next(r, phase, replies[0]).0, replies.drop_first());
    }
}

/// Once done, a reconciler only reports replies that came too late.
proof fn lemma_done_stays_done(r: Reconciler, replies: Seq<Reply>)
    ensures
        forall|i: int|
            0 <= i < replies.len() ==> #[trigger] trace(r, PhaseModel::Done, replies)[i]
                == StepModel::Failed(FailureModel::AfterEnd),
    decreases replies.len(),
{
    lemma_trace_len(r, PhaseModel::Done, replies);
    if replies.len() > 0 {
        lemma_done_stays_done(r, replies.drop_first());
        lemma_trace_step(r, PhaseModel::Done, replies);
        let t = trace(r, PhaseModel::Done, replies);
        assert forall|i: int| 0 <= i < replies.len() implies #[trigger] t[i] == StepModel::Failed(
            FailureModel::AfterEnd,
        ) by {
            if i > 0 {
                assert(t[i] == trace(r, PhaseModel::Done, replies.drop_first())[i - 1]);
            }
        }
    }
}

/// From checking or starting an existing container, it is kept.
proof fn lemma_kept_from(r: Reconciler, phase: PhaseModel, replies: Seq<Reply>, id: Seq<char>)
    requires
        !r.recreate,
        phase == PhaseModel::CheckRunning(id) || phase == PhaseModel::Starting(id) || phase
            == PhaseModel::Done,
    ensures
        forall|i: int|
            0 <= i < replies.len() ==> keeps_container(#[trigger] trace(r, phase, replies)[i], id),
    decreases replies.len(),
{
    lemma_trace_len(r, phase, replies);
    if replies.len() > 0 {
        let p = next(r, phase, replies[0]).0;
        lemma_kept_from(r, p, replies.drop_first(), id);
        lemma_trace_step(r, phase, replies);
        let t = trace(r, phase, replies);
        assert forall|i: int| 0 <= i < replies.len() implies keeps_container(#[trigger] t[i], id) by {
            if i > 0 {
                assert(t[i] == trace(r, p, replies.drop_first())[i - 1]);
            }
        }
    }
}

/// Ensuring a container again, with no new port, keeps the container that
/// exists: whatever the engine answers afterwards, nothing is created or
/// committed, and the id returned is the existing container's.
pub proof fn lemma_existing_container_kept(r: Reconciler, replies: Seq<Reply>)
    requires
        !r.recreate,
        replies.len() > 0,
        replies[0].ok,
        trimmed(replies[0].stdout@).len() > 0,
    ensures
        trace(r, PhaseModel::Inspect, replies).len() == replies.len(),
        forall|i: int|
            0 <= i < replies.len() ==> keeps_container(
                #[trigger] trace(r, PhaseModel::Inspect, replies)[i],
                trimmed(replies[0].stdout@),
            ),
{
    let id = trimmed(replies[0].stdout@);
    lemma_trace_len(r, PhaseModel::Inspect, replies);
    lemma_trace_step(r, PhaseModel::Inspect, replies);
    lemma_kept_from(r, PhaseModel::CheckRunning(id), replies.drop_first(), id);
    let t = trace(r, PhaseModel::Inspect, replies);
    assert forall|i: int| 0 <= i < replies.len() implies keeps_container(#[trigger] t[i], id) by {
        if i > 0 {
            assert(t[i] == trace(r, PhaseModel::CheckRunning(id), replies.drop_first())[i - 1]);
        }
    }
}

/// A recreate whose engine calls succeed stops the container, commits it to
/// the throwaway image, removes it, creates it anew from that image with the
/// launch arguments of a fresh container but for the image (so with the same
/// workspace mount and working directory), deletes the throwaway image, and
/// returns the new container's id.
pub proof fn lemma_recreate_sequence(r: Reconciler, c: LaunchConfig, replies: Seq<Reply>)
    requires
        r.recreate,
        views(r.fresh_args@) == run_args_spec(c, r.container@, IMAGE_NAME@),
        views(r.recreate_args@) == run_args_spec(c, r.container@, r.temp_image@),
        replies.len() == 6,
        replies[0].ok,
        trimmed(replies[0].stdout@).len() > 0,
        replies[1].ok,
        replies[2].ok,
        replies[3].ok,
        replies[4].ok,
    ensures
        ({
            let id = trimmed(replies[0].stdout@);
            let t = trace(r, PhaseModel::Inspect, replies);
            &&& t[0] == StepModel::Call(CallModel::Stop(id))
            &&& t[1] == StepModel::Call(CallModel::Commit(id, r.temp_image@))
            &&& t[2] == StepModel::Call(CallModel::Remove(id))
            &&& t[3] == StepModel::Call(CallModel::Run(views(r.recreate_args@)))
            &&& t[4] == StepModel::Call(CallModel::RemoveImage(r.temp_image@))
            &&& t[5] == StepModel::Finished(trimmed(replies[4].stdout@))
        }),
        views(r.recreate_args@).len() == views(r.fresh_args@).len(),
        forall|i: int|
            0 <= i < views(r.fresh_args@).len() && i != views(r.fresh_args@).len() - 2
                ==> #[trigger] views(r.recreate_args@)[i] == views(r.fresh_args@)[i],
        views(r.recreate_args@).subrange(workspace_at(c), workspace_at(c) + 4) == views(
            r.fresh_args@,
        ).subrange(workspace_at(c), workspace_at(c) + 4),
{
    let id = trimmed(replies[0].stdout@);
    let r1 = replies.drop_first();
    let r2 = r1.drop_first();
    let r3 = r2.drop_first();
    let r4 = r3.drop_first();
    let r5 = r4.drop_first();
    lemma_trace_step(r, PhaseModel::Inspect, replies);
    lemma_trace_step(r, PhaseModel::Stopping(id), r1);
    lemma_trace_step(r, PhaseModel::Committing(id), r2);
    lemma_trace_step(r, PhaseModel::Removing(id), r3);
    lemma_trace_step(r, PhaseModel::Creating(true), r4);
    lemma_trace_step(r, PhaseModel::DroppingImage(trimmed(replies[4].stdout@)), r5);
    let t = trace(r, PhaseModel::Inspect, replies);
    assert(t[1] == trace(r, PhaseModel::Stopping(id), r1)[0]);
    assert(t[2] == trace(r, PhaseModel::Committing(id), r2)[0]);
    assert(t[3] == trace(r, PhaseModel::Removing(id), r3)[0]);
    assert(t[4] == trace(r, PhaseModel::Creating(true), r4)[0]);
    assert(t[5] == trace(r, PhaseModel::DroppingImage(trimmed(replies[4].stdout@)), r5)[0]);
    lemma_run_args_differ_only_in_image(c, r.container@, r.temp_image@, IMAGE_NAME@);
    assert(views(r.recreate_args@).subrange(workspace_at(c), workspace_at(c) + 4) =~= views(
        r.fresh_args@,
    ).subrange(workspace_at(c), workspace_at(c) + 4));
}

/// A recreate whose commit fails ends there: the old container is never
/// removed or replaced, the throwaway image is not touched, and the failure
/// carries the engine's diagnostic.
pub proof fn lemma_failed_commit_keeps_container(r: Reconciler, replies: Seq<Reply>)
    requires
        r.recreate,
        replies.len() >= 3,
        replies[0].ok,
        trimmed(replies[0].stdout@).len() > 0,
        replies[1].ok,
        !replies[2].ok,
    ensures
        trace(r, PhaseModel::Inspect, replies)[2] == StepModel::Failed(
            FailureModel::Commit(replies[2].stderr@),
        ),
        forall|i: int|
            0 <= i < replies.len() ==> !destroys_or_replaces(
                #[trigger] trace(r, PhaseModel::Inspect, replies)[i],
            ),
{
    let id = trimmed(replies[0].stdout@);
    let r1 = replies.drop_first();
    let r2 = r1.drop_first();
    let r3 = r2.drop_first();
    lemma_trace_step(r, PhaseModel::Inspect, replies);
    lemma_trace_step(r, PhaseModel::Stopping(id), r1);
    lemma_trace_step(r, PhaseModel::Committing(id), r2);
    lemma_done_stays_done(r, r3);
    lemma_trace_len(r, PhaseModel::Inspect, replies);
    let t = trace(r, PhaseModel::Inspect, replies);
    assert forall|i: int| 0 <= i < replies.len() implies !destroys_or_replaces(#[trigger] t[i]) by {
        if i == 1 {
            assert(t[1] == trace(r, PhaseModel::Stopping(id), r1)[0]);
        } else if i == 2 {
            assert(t[2] == trace(r, PhaseModel::Committing(id), r2)[0]);
        } else if i > 2 {
            assert(t[i] == trace(r, PhaseModel::Done, r3)[i - 3]);
        }
    }
    assert(t[2] == trace(r, PhaseModel::Committing(id), r2)[0]);
}

/// A recreate whose stop fails ends there: the container is neither
/// committed, removed nor replaced, and the failure carries the engine's
/// diagnostic.
pub proof fn lemma_failed_stop_keeps_container(r: Reconciler, replies: Seq<Reply>)
    requires
        r.recreate,
        replies.len() >= 2,
        replies[0].ok,
        trimmed(replies[0].stdout@).len() > 0,
        !replies[1].ok,
    ensures
        trace(r, PhaseModel::Inspect, replies)[1] == StepModel::Failed(
            FailureModel::Stop(replies[1].stderr@),
        ),
        forall|i: int|
            0 <= i < replies.len() ==> !destroys_or_replaces(
                #[trigger] trace(r, PhaseModel::Inspect, replies)[i],
            ) && !(trace(r, PhaseModel::Inspect, replies)[i] matches StepModel::Call(
                CallModel::Commit(_, _),
            )),
{
    let id = trimmed(replies[0].stdout@);
    let r1 = replies.drop_first();
    let r2 = r1.drop_first();
    lemma_trace_step(r, PhaseModel::Inspect, replies);
    lemma_trace_step(r, PhaseModel::Stopping(id), r1);
    lemma_done_stays_done(r, r2);
    lemma_trace_len(r, PhaseModel::Inspect, replies);
    let t = trace(r, PhaseModel::Inspect, replies);
    assert forall|i: int| 0 <= i < replies.len() implies !destroys_or_replaces(#[trigger] t[i])
        && !(t[i] matches StepModel::Call(CallModel::Commit(_, _))) by {
        if i == 1 {
            assert(t[1] == trace(r, PhaseModel::Stopping(id), r1)[0]);
        } else if i > 1 {
            assert(t[i] == trace(r, PhaseModel::Done, r2)[i - 2]);
        }
    }
    assert(t[1] == trace(r, PhaseModel::Stopping(id), r1)[0]);
}

/// Number of arguments before the workspace arguments.
pub open spec fn workspace_at(c: LaunchConfig) -> int {
    5 + network_args(c).len() as int
}

/// Recreating a container from another image keeps everything of its launch
/// but the image: the same workspace mount at the same working directory, the
/// same ports, user and SSH forwarding.
pub proof fn lemma_run_args_differ_only_in_image(
    c: LaunchConfig,
    name: Seq<char>,
    a: Seq<char>,
    b: Seq<char>,
)
    ensures
        run_args_spec(c, name, a).len() == run_args_spec(c, name, b).len(),
        run_args_spec(c, name, a)[run_args_spec(c, name, a).len() - 2] == a,
        run_args_spec(c, name, b)[run_args_spec(c, name, b).len() - 2] == b,
        forall|i: int|
            0 <= i < run_args_spec(c, name, a).len() && i != run_args_spec(c, name, a).len() - 2
                ==> #[trigger] run_args_spec(c, name, a)[i] == run_args_spec(c, name, b)[i],
        run_args_spec(c, name, a).subrange(workspace_at(c), workspace_at(c) + 4) == seq![
            "-v"@,
            mount_spec(c.host_workspace@, c.workspace_dir@),
            "-w"@,
            workdir(c.workspace_dir@),
        ],
{
    let pre = seq!["run"@, "-d"@, "-it"@, "--name"@, name] + network_args(c) + workspace_args(c)
        + ssh_args_spec(c);
    assert(run_args_spec(c, name, a) =~= pre + seq![a, "/bin/bash"@]);
    assert(run_args_spec(c, name, b) =~= pre + seq![b, "/bin/bash"@]);
    let k = workspace_at(c);
    assert(run_args_spec(c, name, a).subrange(k, k + 4) =~= seq![
        "-v"@,
        mount_spec(c.host_workspace@, c.workspace_dir@),
        "-w"@,
        workdir(c.workspace_dir@),
    ]);
}

} // verus!

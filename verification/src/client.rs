//! How a front-end reaches the machines: it tries the service, starts the
//! service if nobody answers, waits for it, and falls back to a backend of
//! its own when the service stays out of reach.

use vstd::prelude::*;
use crate::hypervisor::{ErrorView, Host, Hypervisor, HypervisorError};
use crate::platform::Platform;
use crate::service::{
    optional_id, resolve_selector, resolved, vm_dto_views, VmInfoDto, VmInfoDtoView,
};
use crate::text::{chars_of, has_prefix, join2, starts_with};

verus! {

/// The address of the service where none is configured.
pub open spec fn default_addr() -> Seq<char> {
    "127.0.0.1:50051"@
}

/// The address of the service: the configured one, or the default.
pub fn grpc_addr(configured: Option<String>) -> (addr: String)
    ensures
        addr@ == match configured {
            Some(a) => a@,
            None => default_addr(),
        },
{
    match configured {
        Some(a) => a,
        None => "127.0.0.1:50051".to_owned(),
    }
}

/// The endpoint for an address: the address itself if it names a scheme, and
/// else the address behind `http://`.
pub open spec fn endpoint_of(addr: Seq<char>) -> Seq<char> {
    if has_prefix(addr, "http://"@) || has_prefix(addr, "https://"@) {
        addr
    } else {
        "http://"@ + addr
    }
}

/// The endpoint to connect to for the address `addr`.
pub fn grpc_endpoint(addr: &str) -> (endpoint: String)
    ensures
        endpoint@ == endpoint_of(addr@),
{
    let chars = chars_of(addr);
    let plain = chars_of("http://");
    let secure = chars_of("https://");
    if starts_with(&chars, &plain) || starts_with(&chars, &secure) {
        addr.to_owned()
    } else {
        join2("http://", addr)
    }
}

/// The file name of the service's executable.
pub open spec fn daemon_name(platform: Platform) -> Seq<char> {
    if platform == Platform::Windows {
        "cargobay-daemon.exe"@
    } else {
        "cargobay-daemon"@
    }
}

/// The file name of the service's executable on `platform`.
pub fn daemon_file_name(platform: Platform) -> (name: &'static str)
    ensures
        name@ == daemon_name(platform),
{
    match platform {
        Platform::Windows => "cargobay-daemon.exe",
        _ => "cargobay-daemon",
    }
}

/// The file name of the service's executable on `platform`.
pub fn daemon_bin_name(platform: Platform) -> (name: &'static str)
    ensures
        name@ == daemon_name(platform),
{
    daemon_file_name(platform)
}

/// Where an executable is looked for: at the configured place if there is
/// one, else beside the running executable if it is there, else by its name on
/// the search path.
pub open spec fn binary_choice(
    configured: Option<Seq<char>>,
    adjacent: Option<Seq<char>>,
    name: Seq<char>,
) -> Seq<char> {
    match configured {
        Some(path) => path,
        None => match adjacent {
            Some(path) => path,
            None => name,
        },
    }
}

/// Picks where to look for an executable. `adjacent` is the file beside the
/// running executable, if that file exists.
pub fn choose_binary(configured: Option<String>, adjacent: Option<String>, name: &str) -> (path:
    String)
    ensures
        path@ == binary_choice(optional_id(configured), optional_id(adjacent), name@),
{
    match configured {
        Some(path) => path,
        None => match adjacent {
            Some(path) => path,
            None => name.to_owned(),
        },
    }
}

/// Where the service's executable is looked for.
pub fn daemon_path(configured: Option<String>, adjacent: Option<String>, platform: Platform) -> (path:
    String)
    ensures
        path@ == binary_choice(
            optional_id(configured),
            optional_id(adjacent),
            daemon_name(platform),
        ),
{
    choose_binary(configured, adjacent, daemon_file_name(platform))
}

/// Where the runner's executable is looked for.
pub fn vz_runner_path(configured: Option<String>, adjacent: Option<String>) -> (path: String)
    ensures
        path@ == binary_choice(optional_id(configured), optional_id(adjacent), "cargobay-vz"@),
{
    choose_binary(configured, adjacent, "cargobay-vz")
}

/// The patience of a front-end, in milliseconds.
#[derive(Debug, Clone, Copy, PartialEq, Eq, Structural)]
pub struct ConnectPolicy {
    /// How long the first attempt may take.
    pub first_timeout_ms: u64,
    /// How long an attempt may take while waiting for a started service.
    pub poll_timeout_ms: u64,
    /// How long to sleep between two such attempts.
    pub poll_interval_ms: u64,
    /// How long to wait for a started service altogether.
    pub deadline_ms: u64,
}

impl ConnectPolicy {
    /// The patience of the command line.
    pub fn cli() -> (policy: ConnectPolicy)
        ensures
            policy == (ConnectPolicy {
                first_timeout_ms: 1000,
                poll_timeout_ms: 200,
                poll_interval_ms: 100,
                deadline_ms: 5000,
            }),
    {
        ConnectPolicy {
            first_timeout_ms: 1000,
            poll_timeout_ms: 200,
            poll_interval_ms: 100,
            deadline_ms: 5000,
        }
    }

    /// The patience of the graphical front-end.
    pub fn gui() -> (policy: ConnectPolicy)
        ensures
            policy == (ConnectPolicy {
                first_timeout_ms: 1000,
                poll_timeout_ms: 1000,
                poll_interval_ms: 200,
                deadline_ms: 5000,
            }),
    {
        ConnectPolicy {
            first_timeout_ms: 1000,
            poll_timeout_ms: 1000,
            poll_interval_ms: 200,
            deadline_ms: 5000,
        }
    }
}

/// Where a front-end stands on its way to the machines.
#[derive(Debug, Clone, Copy, PartialEq, Eq, Structural)]
pub enum Connector {
    /// Nothing was tried.
    Idle,
    /// The first attempt to connect is under way.
    Probing,
    /// The service is being started.
    Spawning,
    /// An attempt to connect to the started service is under way.
    Polling,
    /// The front-end sleeps between two attempts.
    Sleeping,
    /// The service answers: every operation goes through it.
    Remote,
    /// The service is out of reach: a backend of the front-end's own serves.
    Local,
}

/// What happened to what the front-end was asked to do.
#[derive(Debug, Clone, Copy, PartialEq, Eq, Structural)]
pub enum Event {
    /// The front-end wants to reach the machines.
    Begin,
    /// The attempt to connect succeeded.
    Connected,
    /// The attempt to connect failed or timed out.
    Unreachable,
    /// The service process was started.
    Spawned,
    /// The service process could not be started.
    SpawnFailed,
    /// The sleep is over.
    Slept,
}

/// What the front-end is to do next.
#[derive(Debug, Clone, Copy, PartialEq, Eq, Structural)]
pub enum Action {
    /// Try to connect, for at most this many milliseconds.
    Connect(u64),
    /// Start the service process, detached.
    Spawn,
    /// Sleep for this many milliseconds.
    Sleep(u64),
    /// Go through the service from now on.
    UseRemote,
    /// Serve this invocation with a backend of one's own.
    UseLocal,
}

/// The next stand and the next thing to do, given where the front-end stands,
/// what happened, and how long ago the service was started. An event that
/// does not fit the stand ends the attempt with the local backend.
pub open spec fn next_step(
    policy: ConnectPolicy,
    state: Connector,
    event: Event,
    since_spawn_ms: u64,
) -> (Connector, Action) {
    match (state, event) {
        (Connector::Remote, _) => (Connector::Remote, Action::UseRemote),
        (Connector::Local, _) => (Connector::Local, Action::UseLocal),
        (Connector::Idle, Event::Begin) => (
            Connector::Probing,
            Action::Connect(policy.first_timeout_ms),
        ),
        (Connector::Probing, Event::Connected) => (Connector::Remote, Action::UseRemote),
        (Connector::Probing, Event::Unreachable) => (Connector::Spawning, Action::Spawn),
        (Connector::Spawning, Event::Spawned) => (
            Connector::Polling,
            Action::Connect(policy.poll_timeout_ms),
        ),
        (Connector::Spawning, Event::SpawnFailed) => (Connector::Local, Action::UseLocal),
        (Connector::Polling, Event::Connected) => (Connector::Remote, Action::UseRemote),
        (Connector::Polling, Event::Unreachable) => if since_spawn_ms >= policy.deadline_ms {
            (Connector::Local, Action::UseLocal)
        } else {
            (Connector::Sleeping, Action::Sleep(policy.poll_interval_ms))
        },
        (Connector::Sleeping, Event::Slept) => (
            Connector::Polling,
            Action::Connect(policy.poll_timeout_ms),
        ),
        _ => (Connector::Local, Action::UseLocal),
    }
}

impl Connector {
    /// Where every front-end begins.
    pub fn new() -> (state: Connector)
        ensures
            state == Connector::Idle,
    {
        Connector::Idle
    }

    /// Whether the way has come to its end.
    pub fn is_settled(&self) -> (settled: bool)
        ensures
            settled == (*self == Connector::Remote || *self == Connector::Local),
    {
        match self {
            Connector::Remote => true,
            Connector::Local => true,
            _ => false,
        }
    }

    /// Takes note of `event` and says what to do next.
    pub fn step(&mut self, policy: ConnectPolicy, event: Event, since_spawn_ms: u64) -> (action:
        Action)
        ensures
            (*final(self), action) == next_step(policy, *old(self), event, since_spawn_ms),
    {
        let (state, action) = match (*self, event) {
            (Connector::Remote, _) => (Connector::Remote, Action::UseRemote),
            (Connector::Local, _) => (Connector::Local, Action::UseLocal),
            (Connector::Idle, Event::Begin) => (
                Connector::Probing,
                Action::Connect(policy.first_timeout_ms),
            ),
            (Connector::Probing, Event::Connected) => (Connector::Remote, Action::UseRemote),
            (Connector::Probing, Event::Unreachable) => (Connector::Spawning, Action::Spawn),
            (Connector::Spawning, Event::Spawned) => (
                Connector::Polling,
                Action::Connect(policy.poll_timeout_ms),
            ),
            (Connector::Spawning, Event::SpawnFailed) => (Connector::Local, Action::UseLocal),
            (Connector::Polling, Event::Connected) => (Connector::Remote, Action::UseRemote),
            (Connector::Polling, Event::Unreachable) => {
                if since_spawn_ms >= policy.deadline_ms {
                    (Connector::Local, Action::UseLocal)
                } else {
                    (Connector::Sleeping, Action::Sleep(policy.poll_interval_ms))
                }
            },
            (Connector::Sleeping, Event::Slept) => (
                Connector::Polling,
                Action::Connect(policy.poll_timeout_ms),
            ),
            _ => (Connector::Local, Action::UseLocal),
        };
        *self = state;
        action
    }
}

/// The way ends when the front-end is told which side serves, and only then;
/// and once it has ended nothing moves it.
pub proof fn lemma_connector_ends(
    policy: ConnectPolicy,
    state: Connector,
    event: Event,
    since_spawn_ms: u64,
)
    ensures
        ({
            let (next, action) = next_step(policy, state, event, since_spawn_ms);
            &&& (next == Connector::Remote <==> action == Action::UseRemote)
            &&& (next == Connector::Local <==> action == Action::UseLocal)
            &&& (state == Connector::Remote ==> next == Connector::Remote)
            &&& (state == Connector::Local ==> next == Connector::Local)
        }),
{
}

/// A front-end that cannot connect and cannot start the service is served by
/// its own backend; one that cannot connect to the service it started is
/// served by its own backend once the deadline has passed.
pub proof fn lemma_fallback(policy: ConnectPolicy, since_spawn_ms: u64)
    ensures
        next_step(policy, Connector::Idle, Event::Begin, 0).0 == Connector::Probing,
        next_step(policy, Connector::Probing, Event::Unreachable, 0).0 == Connector::Spawning,
        next_step(policy, Connector::Spawning, Event::SpawnFailed, 0).0 == Connector::Local,
        since_spawn_ms >= policy.deadline_ms ==> next_step(
            policy,
            Connector::Polling,
            Event::Unreachable,
            since_spawn_ms,
        ).0 == Connector::Local,
{
}

/// What a selector stands for among the machines of a backend of one's own,
/// on a fresh list of them: the id, or the error that no machine is found.
pub fn resolve_vm_id_local<H: Hypervisor>(hv: &mut H, selector: &str, host: &Host) -> (r: Result<
    String,
    HypervisorError,
>)
    ensures
        final(hv).records() == old(hv).seen_records(*host),
        final(hv).unsettled() == old(hv).unsettled(),
        match resolved(old(hv).seen_records(*host), selector@) {
            Some(id) => r matches Ok(found) && found@ == id,
            None => r matches Err(e) && e@ == ErrorView::NotFound(selector@),
        },
{
    let vms = match hv.list_vms(host) {
        Ok(vms) => vms,
        Err(e) => {
            return Err(e);
        },
    };
    match resolve_selector(&vms, selector) {
        Some(id) => Ok(id),
        None => Err(HypervisorError::NotFound(selector.to_owned())),
    }
}

/// The id of a listed machine.
pub open spec fn listed_id(vms: Seq<VmInfoDtoView>, selector: Seq<char>) -> Option<Seq<char>> {
    if exists|i: int| 0 <= i < vms.len() && (#[trigger] vms[i]).id == selector {
        Some(selector)
    } else {
        first_listed_name(vms, selector)
    }
}

/// The id of the first listed machine named `name`.
pub open spec fn first_listed_name(vms: Seq<VmInfoDtoView>, name: Seq<char>) -> Option<Seq<char>>
    decreases vms.len(),
{
    if vms.len() == 0 {
        None
    } else if vms[0].name == name {
        Some(vms[0].id)
    } else {
        first_listed_name(vms.skip(1), name)
    }
}

/// What a selector stands for among the machines that the service listed:
/// the id, or the text of the error that no machine is found.
pub fn resolve_vm_id_grpc(vms: &Vec<VmInfoDto>, selector: &str) -> (r: Result<String, String>)
    ensures
        match listed_id(vm_dto_views(vms@), selector@) {
            Some(id) => r matches Ok(found) && found@ == id,
            None => r matches Err(text) && text@ == "VM not found: "@ + selector@,
        },
{
    let ghost views = vm_dto_views(vms@);
    let wanted = selector.to_owned();
    let mut i: usize = 0;
    while i < vms.len()
        invariant
            i <= vms.len(),
            wanted@ == selector@,
            views == vm_dto_views(vms@),
            forall|k: int| 0 <= k < i ==> (#[trigger] views[k]).id != selector@,
        decreases vms.len() - i,
    {
        if vms[i].id == wanted {
            proof {
                assert(views[i as int].id == selector@);
            }
            return Ok(wanted);
        }
        i = i + 1;
    }
    let mut j: usize = 0;
    proof {
        assert(views.skip(0) =~= views);
    }
    while j < vms.len()
        invariant
            j <= vms.len(),
            wanted@ == selector@,
            views == vm_dto_views(vms@),
            forall|k: int| 0 <= k < vms.len() ==> (#[trigger] views[k]).id != selector@,
            first_listed_name(views, selector@) == first_listed_name(
                views.skip(j as int),
                selector@,
            ),
        decreases vms.len() - j,
    {
        proof {
            assert(views.skip(j as int)[0] == views[j as int]);
            assert(views.skip(j as int).skip(1) =~= views.skip(j + 1));
        }
        if vms[j].name == wanted {
            return Ok(vms[j].id.clone());
        }
        j = j + 1;
    }
    Err(join2("VM not found: ", selector))
}

/// Where the service's executable was looked for.
#[derive(Debug, Clone, Copy, PartialEq, Eq, Structural)]
pub enum DaemonSource {
    /// At the configured place.
    Configured,
    /// Beside the running executable.
    Adjacent,
    /// On the search path.
    SearchPath,
}

/// The file beside the running executable where the service's executable
/// would be.
#[derive(Debug, PartialEq, Eq)]
pub struct Candidate {
    pub path: String,
    /// Whether a file is there.
    pub is_file: bool,
}

/// How the graphical front-end starts the service.
#[derive(Debug, PartialEq, Eq)]
pub struct SpawnPlan {
    /// The program to start.
    pub program: String,
    /// Where it was looked for.
    pub source: DaemonSource,
    /// Where it was looked for in vain, and where it is looked for at last.
    pub tried: Vec<String>,
}

/// What a [`SpawnPlan`] is, as plain values.
pub struct SpawnPlanView {
    pub program: Seq<char>,
    pub source: DaemonSource,
    pub tried: Seq<Seq<char>>,
}

impl View for SpawnPlan {
    type V = SpawnPlanView;

    open spec fn view(&self) -> SpawnPlanView {
        SpawnPlanView {
            program: self.program@,
            source: self.source,
            tried: crate::scan::text_views(self.tried@),
        }
    }
}

/// How the service is started: from the configured place if there is one;
/// else from beside the running executable if a file is there; else by its
/// name from the search path, with a note of where it was not found.
pub open spec fn planned_spawn(configured: Option<Seq<char>>, candidate: Option<Candidate>) -> SpawnPlanView {
    match configured {
        Some(path) => SpawnPlanView {
            program: path,
            source: DaemonSource::Configured,
            tried: Seq::empty(),
        },
        None => match candidate {
            Some(c) => if c.is_file {
                SpawnPlanView {
                    program: c.path@,
                    source: DaemonSource::Adjacent,
                    tried: Seq::empty(),
                }
            } else {
                SpawnPlanView {
                    program: "cargobay-daemon"@,
                    source: DaemonSource::SearchPath,
                    tried: seq![c.path@, "cargobay-daemon (PATH)"@],
                }
            },
            None => SpawnPlanView {
                program: "cargobay-daemon"@,
                source: DaemonSource::SearchPath,
                tried: seq!["cargobay-daemon (PATH)"@],
            },
        },
    }
}

/// Plans how to start the service.
pub fn spawn_daemon(configured: Option<String>, candidate: Option<Candidate>) -> (plan: SpawnPlan)
    ensures
        plan@ == planned_spawn(optional_id(configured), candidate),
{
    match configured {
        Some(path) => {
            let tried: Vec<String> = Vec::new();
            proof {
                assert(crate::scan::text_views(tried@) =~= Seq::empty());
            }
            return SpawnPlan { program: path, source: DaemonSource::Configured, tried };
        },
        None => {},
    }
    let mut tried: Vec<String> = Vec::new();
    match candidate {
        Some(c) => {
            if c.is_file {
                proof {
                    assert(crate::scan::text_views(tried@) =~= Seq::empty());
                }
                return SpawnPlan { program: c.path, source: DaemonSource::Adjacent, tried };
            }
            tried.push(c.path);
        },
        None => {},
    }
    tried.push("cargobay-daemon (PATH)".to_owned());
    proof {
        assert(crate::scan::text_views(tried@) =~= planned_spawn(
            optional_id(configured),
            candidate,
        ).tried);
    }
    SpawnPlan { program: "cargobay-daemon".to_owned(), source: DaemonSource::SearchPath, tried }
}

/// What is said when the service could not be started.
pub open spec fn spawn_failure_text(plan: SpawnPlanView, error: Seq<char>) -> Seq<char> {
    match plan.source {
        DaemonSource::Configured => "Failed to spawn daemon from CARGOBAY_DAEMON_PATH ("@
            + plan.program + "): "@ + error,
        DaemonSource::Adjacent => "Failed to spawn daemon next to GUI binary ("@ + plan.program
            + "): "@ + error,
        DaemonSource::SearchPath => "Failed to spawn daemon (tried: "@ + crate::scan::joined(
            plan.tried,
            ", "@,
        ) + "): "@ + error,
    }
}

/// What to say when the service could not be started as planned.
pub fn spawn_failure(plan: &SpawnPlan, error: &str) -> (text: String)
    ensures
        text@ == spawn_failure_text(plan@, error@),
{
    match plan.source {
        DaemonSource::Configured => {
            let mut text = join2("Failed to spawn daemon from CARGOBAY_DAEMON_PATH (", plan.program.as_str());
            text.append("): ");
            text.append(error);
            text
        },
        DaemonSource::Adjacent => {
            let mut text = join2("Failed to spawn daemon next to GUI binary (", plan.program.as_str());
            text.append("): ");
            text.append(error);
            text
        },
        DaemonSource::SearchPath => {
            let tried = crate::scan::join_with(&plan.tried, ", ");
            let mut text = join2("Failed to spawn daemon (tried: ", tried.as_str());
            text.append("): ");
            text.append(error);
            text
        },
    }
}

/// What the command line says when it could not start the service.
pub fn spawn_daemon_detached_failure(program: &str, error: &str) -> (text: String)
    ensures
        text@ == "Failed to spawn "@ + program@ + ": "@ + error@,
{
    let mut text = join2("Failed to spawn ", program);
    text.append(": ");
    text.append(error);
    text
}

/// What is said when no connection came about in time.
pub fn connect_timeout_message(addr: &str) -> (text: String)
    ensures
        text@ == "Timed out connecting to daemon at "@ + endpoint_of(addr@),
{
    let endpoint = grpc_endpoint(addr);
    join2("Timed out connecting to daemon at ", endpoint.as_str())
}

/// What is said when a connection failed.
pub fn connect_failure_message(addr: &str, error: &str) -> (text: String)
    ensures
        text@ == "Failed to connect to daemon at "@ + endpoint_of(addr@) + ": "@ + error@,
{
    let endpoint = grpc_endpoint(addr);
    let mut text = join2("Failed to connect to daemon at ", endpoint.as_str());
    text.append(": ");
    text.append(error);
    text
}

/// What is said when the started service did not become ready in time.
pub fn wait_timeout_message(addr: &str) -> (text: String)
    ensures
        text@ == "Timed out waiting for daemon to become ready at "@ + endpoint_of(addr@),
{
    let endpoint = grpc_endpoint(addr);
    join2("Timed out waiting for daemon to become ready at ", endpoint.as_str())
}

} // verus!

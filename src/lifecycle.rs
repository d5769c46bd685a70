//! Lifecycle decisions: events of install, power and rebind jobs, the
//! entrypoint scripts, and the checks that gate each job. Talking to the
//! runtime is left to the caller.

use vstd::prelude::*;
use crate::state::{ContainerState, InstallState, PortBinding};
use crate::security::{join, join_path};
use crate::text::{chars_of, decimal, decimal_string, string_of};

verus! {

/// Progress of an install, reinstall or repair job.
#[derive(Debug, Clone)]
pub enum LifecycleEvent {
    Started(String),
    DockerConnected,
    PullingImage(String, String),
    ImagePulled(String, String),
    CreatingContainer(String),
    ContainerCreated(String, String),
    RunningInstallScript(String),
    InstallScriptComplete(String, i32),
    SettingUpEntrypoint(String),
    Ready(String),
    Error(String, String),
    ReinstallStarted(String),
    RemovingOldContainer(String),
    RepairStarted(String),
    CorruptionDetected(String, String),
}

/// A power action.
#[derive(Debug, Clone, Copy, PartialEq, Eq, Structural)]
pub enum PowerAction {
    Start,
    Kill,
    Restart,
}

/// Progress of a power action.
#[derive(Debug, Clone)]
pub enum PowerEvent {
    Starting(String),
    Started(String),
    Killing(String),
    Killed(String),
    Restarting(String),
    Restarted(String),
    Error(String, String),
}

/// Progress of a rebind job.
#[derive(Debug, Clone)]
pub enum NetworkEvent {
    RebindingStarted(String),
    RemovingOldContainer(String),
    CreatingNewContainer(String),
    UpdatingDatabase(String),
    RebindingComplete(String),
    Error(String, String),
}

/// The power action a wire word names: "start", "kill" or "restart".
pub open spec fn action_of(word: Seq<char>) -> Option<PowerAction> {
    if word == "start"@ {
        Some(PowerAction::Start)
    } else if word == "kill"@ {
        Some(PowerAction::Kill)
    } else if word == "restart"@ {
        Some(PowerAction::Restart)
    } else {
        None
    }
}

/// The power action a wire word names.
pub fn parse_power_action(word: &str) -> (r: Option<PowerAction>)
    ensures
        r == action_of(word@),
{
    if crate::text::same_text(word, "start") {
        Some(PowerAction::Start)
    } else if crate::text::same_text(word, "kill") {
        Some(PowerAction::Kill)
    } else if crate::text::same_text(word, "restart") {
        Some(PowerAction::Restart)
    } else {
        None
    }
}

/// Why a power action cannot run.
#[derive(Debug, Clone, Copy, PartialEq, Eq, Structural)]
pub enum PowerError {
    /// No record for the container.
    NotFound,
    /// The container has no runtime instance yet.
    Pending,
}

/// The runtime id that a power action targets, given the record found.
pub fn power_target(state: Option<&ContainerState>) -> (r: Result<String, PowerError>)
    ensures
        state.is_none() ==> r == Err::<String, PowerError>(PowerError::NotFound),
        state.is_some() && state.unwrap().container_id.is_none() ==> r == Err::<String, PowerError>(PowerError::Pending),
        state.is_some() && state.unwrap().container_id.is_some() ==> r == Ok::<String, PowerError>(
            state.unwrap().container_id.unwrap(),
        ),
{
    match state {
        None => Err(PowerError::NotFound),
        Some(s) => match &s.container_id {
            None => Err(PowerError::Pending),
            Some(c) => Ok(c.clone()),
        },
    }
}

/// `before` and `after` are the events of `action` on container `id`.
pub open spec fn power_pair(action: PowerAction, before: PowerEvent, after: PowerEvent, id: Seq<char>) -> bool {
    match (action, before, after) {
        (PowerAction::Start, PowerEvent::Starting(a), PowerEvent::Started(b)) => a@ == id && b@ == id,
        (PowerAction::Kill, PowerEvent::Killing(a), PowerEvent::Killed(b)) => a@ == id && b@ == id,
        (PowerAction::Restart, PowerEvent::Restarting(a), PowerEvent::Restarted(b)) => a@ == id && b@ == id,
        _ => false,
    }
}

/// The event announced before a power action runs, and the one after it
/// succeeds.
pub fn power_events(action: PowerAction, internal_id: &str) -> (r: (PowerEvent, PowerEvent))
    ensures
        power_pair(action, r.0, r.1, internal_id@),
{
    let a = String::from_str(internal_id);
    let b = String::from_str(internal_id);
    match action {
        PowerAction::Start => (PowerEvent::Starting(a), PowerEvent::Started(b)),
        PowerAction::Kill => (PowerEvent::Killing(a), PowerEvent::Killed(b)),
        PowerAction::Restart => (PowerEvent::Restarting(a), PowerEvent::Restarted(b)),
    }
}

/// Whether the record agrees with the runtime: a record with a runtime id
/// agrees when that instance exists (`runtime_exists`); a ready record
/// without one does not; an installing or failed one without one does.
pub fn verify_sync(state: &ContainerState, runtime_exists: bool) -> (r: bool)
    ensures
        state.container_id.is_some() ==> r == runtime_exists,
        state.container_id.is_none() ==> r == (state.install_state != InstallState::Ready),
{
    if state.container_id.is_some() {
        runtime_exists
    } else {
        state.install_state != InstallState::Ready
    }
}

/// The runtime name of a container: "lightd-" and its internal id.
pub fn container_name(internal_id: &str) -> (r: String)
    ensures
        r@ == "lightd-"@ + internal_id@,
{
    String::from_str("lightd-").concat(internal_id)
}

/// `s` with every single quote written as `'\''`, so that it can stand
/// inside a single-quoted shell word.
pub open spec fn quote_escaped(s: Seq<char>) -> Seq<char>
    decreases s.len(),
{
    if s.len() == 0 {
        Seq::empty()
    } else {
        quote_escaped(s.drop_last()) + if s.last() == '\'' { seq!['\'', '\\', '\'', '\''] } else { seq![s.last()] }
    }
}

/// `s` with every single quote written as `'\''`.
pub fn escape_single_quotes(s: &str) -> (r: String)
    ensures
        r@ == quote_escaped(s@),
{
    let cs = chars_of(s);
    let mut out: Vec<char> = Vec::new();
    let mut i: usize = 0;
    while i < cs.len()
        invariant
            cs@ == s@,
            i <= cs@.len(),
            out@ == quote_escaped(cs@.subrange(0, i as int)),
        decreases cs.len() - i,
    {
        proof {
            assert(cs@.subrange(0, i + 1).drop_last() =~= cs@.subrange(0, i as int));
        }
        if cs[i] == '\'' {
            out.push('\'');
            out.push('\\');
            out.push('\'');
            out.push('\'');
        } else {
            out.push(cs[i]);
        }
        assert(out@ =~= quote_escaped(cs@.subrange(0, i + 1)));
        i = i + 1;
    }
    assert(cs@.subrange(0, cs@.len() as int) =~= cs@);
    string_of(out.as_slice())
}

/// The final entrypoint: enter the volume and run the startup command
/// through a shell.
pub open spec fn entrypoint_text(startup_command: Seq<char>) -> Seq<char> {
    "#!/bin/sh\ncd /home/container\nexec sh -c '"@ + quote_escaped(startup_command) + "'\n"@
}

/// The final entrypoint script for `startup_command`.
pub fn final_entrypoint(startup_command: &str) -> (r: String)
    ensures
        r@ == entrypoint_text(startup_command@),
{
    let escaped = escape_single_quotes(startup_command);
    String::from_str("#!/bin/sh\ncd /home/container\nexec sh -c '").concat(escaped.as_str()).concat("'\n")
}

/// The one-shot entrypoint that runs the install script.
pub fn install_entrypoint() -> (r: String)
    ensures
        r@ == "#!/bin/sh\ncd /home/container\n/bin/sh /app/data/install.sh\n"@,
{
    String::from_str("#!/bin/sh\ncd /home/container\n/bin/sh /app/data/install.sh\n")
}

/// Why a rebind request is refused.
#[derive(Debug, Clone, Copy, PartialEq, Eq, Structural)]
pub enum RebindError {
    EmptyInternalId,
    EmptyImage,
    /// The binding at this position has container port 0.
    ZeroContainerPort(usize),
    /// The binding at this position has host port 0.
    ZeroHostPort(usize),
    /// The binding at this position names neither tcp nor udp.
    BadProtocol(usize),
    /// The container is being installed.
    Installing,
}

/// The binding names a supported protocol, in any letter case.
pub open spec fn protocol_ok(p: Seq<char>) -> bool {
    crate::fileinfo::lower_of(p) == "tcp"@ || crate::fileinfo::lower_of(p) == "udp"@
}

/// The first problem of binding `b`, at position `k`.
pub open spec fn binding_error(b: PortBinding, k: usize) -> Option<RebindError> {
    if b.container_port == 0 {
        Some(RebindError::ZeroContainerPort(k))
    } else if b.host_port == 0 {
        Some(RebindError::ZeroHostPort(k))
    } else if !protocol_ok(b.protocol@) {
        Some(RebindError::BadProtocol(k))
    } else {
        None
    }
}

/// Checks a rebind request: ids present, ports non-zero, protocols tcp or
/// udp, and the container not being installed. Returns the first problem.
pub fn validate_rebind(internal_id: &str, image: &str, ports: &Vec<PortBinding>, is_installing: bool) -> (r: Result<(), RebindError>)
    ensures
        crate::text::all_space(internal_id@) ==> r == Err::<(), RebindError>(RebindError::EmptyInternalId),
        !crate::text::all_space(internal_id@) && crate::text::all_space(image@) ==> r == Err::<(), RebindError>(RebindError::EmptyImage),
        r is Ok <==> (!crate::text::all_space(internal_id@) && !crate::text::all_space(image@) && !is_installing
            && forall|k: int| 0 <= k < ports@.len() ==> binding_error(#[trigger] ports@[k], k as usize).is_none()),
        r matches Err(RebindError::ZeroContainerPort(k)) ==> k < ports@.len() && binding_error(ports@[k as int], k) == Some(r->Err_0),
        r matches Err(RebindError::ZeroHostPort(k)) ==> k < ports@.len() && binding_error(ports@[k as int], k) == Some(r->Err_0),
        r matches Err(RebindError::BadProtocol(k)) ==> k < ports@.len() && binding_error(ports@[k as int], k) == Some(r->Err_0),
{
    if crate::text::is_blank(internal_id) {
        return Err(RebindError::EmptyInternalId);
    }
    if crate::text::is_blank(image) {
        return Err(RebindError::EmptyImage);
    }
    let mut i: usize = 0;
    while i < ports.len()
        invariant
            i <= ports@.len(),
            !crate::text::all_space(internal_id@),
            !crate::text::all_space(image@),
            forall|k: int| 0 <= k < i ==> binding_error(#[trigger] ports@[k], k as usize).is_none(),
        decreases ports.len() - i,
    {
        if ports[i].container_port == 0 {
            return Err(RebindError::ZeroContainerPort(i));
        }
        if ports[i].host_port == 0 {
            return Err(RebindError::ZeroHostPort(i));
        }
        let lower = crate::fileinfo::lowercase(ports[i].protocol.as_str());
        if !crate::text::same_text(lower.as_str(), "tcp") && !crate::text::same_text(lower.as_str(), "udp") {
            return Err(RebindError::BadProtocol(i));
        }
        i = i + 1;
    }
    if is_installing {
        return Err(RebindError::Installing);
    }
    Ok(())
}

/// CPU use in hundredths of a percent, rounded half up:
/// `container_delta / system_delta × online_cpus × 100`, and 0 unless both
/// deltas are positive.
pub open spec fn cpu_centi(container_delta: i64, system_delta: i64, online_cpus: u32) -> int {
    if container_delta > 0 && system_delta > 0 {
        (2 * container_delta * online_cpus * 10000 + system_delta) / (2 * system_delta)
    } else {
        0
    }
}

/// CPU use in hundredths of a percent; saturates at `u64::MAX`.
pub fn cpu_percent_centi(container_delta: i64, system_delta: i64, online_cpus: u32) -> (r: u64)
    ensures
        r == if cpu_centi(container_delta, system_delta, online_cpus) > u64::MAX { u64::MAX as int } else {
            cpu_centi(container_delta, system_delta, online_cpus)
        },
{
    if container_delta > 0 && system_delta > 0 {
        let c = container_delta as u128;
        let s = system_delta as u128;
        let n = online_cpus as u128;
        assert(c * n <= 0x7fff_ffff_ffff_ffff * 0xffff_ffff) by (nonlinear_arith)
            requires c <= 0x7fff_ffff_ffff_ffff, n <= 0xffff_ffff;
        let num = 2 * (c * n) * 10000 + s;
        let v = num / (2 * s);
        assert(num == 2 * container_delta * online_cpus * 10000 + system_delta) by (nonlinear_arith)
            requires c == container_delta, n == online_cpus, s == system_delta, num == 2 * (c * n) * 10000 + s;
        if v > u64::MAX as u128 {
            u64::MAX
        } else {
            v as u64
        }
    } else {
        0
    }
}

/// Host paths of a container: its volume under `<base>/volumes` and its
/// data directory under `<base>/containers`.
pub open spec fn host_paths(base: Seq<char>, volume_id: Seq<char>, internal_id: Seq<char>) -> (Seq<char>, Seq<char>) {
    (join_path(join_path(base, "volumes"@), volume_id), join_path(join_path(base, "containers"@), internal_id))
}

/// Host paths of a container: its volume and its data directory.
pub fn container_paths(base: &str, volume_id: &str, internal_id: &str) -> (r: (String, String))
    ensures
        (r.0@, r.1@) == host_paths(base@, volume_id@, internal_id@),
{
    let volumes = join(base, "volumes");
    let containers = join(base, "containers");
    (join(volumes.as_str(), volume_id), join(containers.as_str(), internal_id))
}

/// The characters of each string pair.
pub open spec fn pair_texts(v: Seq<(String, String)>) -> Seq<(Seq<char>, Seq<char>)> {
    v.map_values(|m: (String, String)| (m.0@, m.1@))
}

/// Binds of a container as (target, source): the volume at
/// /home/container, the data directory at /app/data, then the user's
/// own binds in order.
pub open spec fn mount_plan(volume_path: Seq<char>, data_path: Seq<char>, user: Seq<(String, String)>) -> Seq<(Seq<char>, Seq<char>)> {
    seq![("/home/container"@, volume_path), ("/app/data"@, data_path)] + pair_texts(user)
}

/// Binds of a container as (target, source).
pub fn install_mounts(volume_path: &str, data_path: &str, user_mounts: &Vec<(String, String)>) -> (r: Vec<(String, String)>)
    ensures
        pair_texts(r@) == mount_plan(volume_path@, data_path@, user_mounts@),
{
    let mut r: Vec<(String, String)> = Vec::new();
    r.push((String::from_str("/home/container"), String::from_str(volume_path)));
    r.push((String::from_str("/app/data"), String::from_str(data_path)));
    assert(pair_texts(r@) =~= mount_plan(volume_path@, data_path@, user_mounts@.subrange(0, 0)));
    let mut i: usize = 0;
    while i < user_mounts.len()
        invariant
            i <= user_mounts@.len(),
            pair_texts(r@) == mount_plan(volume_path@, data_path@, user_mounts@.subrange(0, i as int)),
        decreases user_mounts.len() - i,
    {
        let pair = (user_mounts[i].0.clone(), user_mounts[i].1.clone());
        let ghost prev = r@;
        r.push(pair);
        proof {
            let m = user_mounts@[i as int];
            assert(pair_texts(r@) =~= pair_texts(prev).push((m.0@, m.1@)));
            assert(pair_texts(user_mounts@.subrange(0, i + 1)) =~= pair_texts(user_mounts@.subrange(0, i as int)).push((m.0@, m.1@)));
            assert(pair_texts(r@) =~= mount_plan(volume_path@, data_path@, user_mounts@.subrange(0, i + 1)));
        }
        i = i + 1;
    }
    assert(user_mounts@.subrange(0, user_mounts@.len() as int) =~= user_mounts@);
    r
}

/// The runtime's key for a published port: "<container_port>/<protocol>".
pub open spec fn port_key(b: PortBinding) -> Seq<char> {
    decimal(b.container_port as nat) + "/"@ + b.protocol@
}

/// Published ports as (key, host port text), in order, all on 0.0.0.0.
pub open spec fn port_plan(ports: Seq<PortBinding>) -> Seq<(Seq<char>, Seq<char>)> {
    ports.map_values(|b: PortBinding| (port_key(b), decimal(b.host_port as nat)))
}

/// Published ports as (key, host port text), in order.
pub fn port_bindings(ports: &Vec<PortBinding>) -> (r: Vec<(String, String)>)
    ensures
        pair_texts(r@) == port_plan(ports@),
{
    let mut r: Vec<(String, String)> = Vec::new();
    assert(pair_texts(r@) =~= port_plan(ports@.subrange(0, 0)));
    let mut i: usize = 0;
    while i < ports.len()
        invariant
            i <= ports@.len(),
            pair_texts(r@) == port_plan(ports@.subrange(0, i as int)),
        decreases ports.len() - i,
    {
        let key = decimal_string(ports[i].container_port as u64).concat("/").concat(ports[i].protocol.as_str());
        let host = decimal_string(ports[i].host_port as u64);
        let ghost prev = r@;
        let ghost item = (key@, host@);
        r.push((key, host));
        proof {
            assert(pair_texts(r@) =~= pair_texts(prev).push(item));
            assert(port_plan(ports@.subrange(0, i + 1)) =~= port_plan(ports@.subrange(0, i as int)).push(item));
        }
        i = i + 1;
    }
    assert(ports@.subrange(0, ports@.len() as int) =~= ports@);
    r
}

/// CPU limit in nano-CPUs for a whole number of thousandths of a core.
pub fn nano_cpus_from_millicores(millicores: u32) -> (r: i64)
    ensures
        r == millicores as int * 1000000,
{
    millicores as i64 * 1000000
}

/// The events that open a repair, given the health report of the record.
pub open spec fn repair_opening(id: Seq<char>, report: (bool, Option<String>), r: Option<(LifecycleEvent, LifecycleEvent)>) -> bool {
    if report.0 {
        r.is_none()
    } else {
        let issue = if report.1.is_some() { report.1.unwrap()@ } else { "Unknown issue"@ };
        match r {
            Some((LifecycleEvent::CorruptionDetected(a, m), LifecycleEvent::RepairStarted(b))) => a@ == id && m@ == issue && b@ == id,
            _ => false,
        }
    }
}

/// Whether a repair is due, and the events that announce it: nothing for
/// a healthy record; otherwise the detected issue ("Unknown issue" when
/// none is given), then the start of the repair.
pub fn repair_events(internal_id: &str, report: (bool, Option<String>)) -> (r: Option<(LifecycleEvent, LifecycleEvent)>)
    ensures
        repair_opening(internal_id@, report, r),
{
    let (healthy, issue) = report;
    if healthy {
        return None;
    }
    let message = match issue {
        Some(m) => m,
        None => String::from_str("Unknown issue"),
    };
    Some((
        LifecycleEvent::CorruptionDetected(String::from_str(internal_id), message),
        LifecycleEvent::RepairStarted(String::from_str(internal_id)),
    ))
}

/// Seconds between two looks at a running install script.
pub const INSTALL_POLL_SECS: u64 = 2;
/// Longest wait for an install script, in seconds.
pub const INSTALL_TIMEOUT_SECS: u64 = 600;

/// Where an install job stands.
#[derive(Debug, Clone, Copy, PartialEq, Eq, Structural)]
pub enum InstallPhase {
    Pending,
    Pulling,
    Creating,
    Scripting,
    Finalizing,
    Done,
    Failed,
}

/// An install job of one container.
#[derive(Debug)]
pub struct InstallJob {
    pub internal_id: String,
    pub image: String,
    pub has_script: bool,
    pub phase: InstallPhase,
    /// Seconds waited so far for the install script.
    pub waited_secs: u64,
    pub runtime_id: Option<String>,
}

impl Clone for InstallJob {
    fn clone(&self) -> (r: Self)
        ensures
            r == *self,
    {
        InstallJob {
            internal_id: self.internal_id.clone(),
            image: self.image.clone(),
            has_script: self.has_script,
            phase: self.phase,
            waited_secs: self.waited_secs,
            runtime_id: crate::state::clone_opt(&self.runtime_id),
        }
    }
}

impl InstallJob {
    /// A job that has not begun.
    pub fn new(internal_id: String, image: String, has_script: bool) -> (r: Self)
        ensures
            r == (InstallJob { internal_id, image, has_script, phase: InstallPhase::Pending, waited_secs: 0, runtime_id: None }),
    {
        InstallJob { internal_id, image, has_script, phase: InstallPhase::Pending, waited_secs: 0, runtime_id: None }
    }
}

/// What the runtime side reports to an install job.
#[derive(Debug)]
pub enum InstallEvent {
    /// The runtime answered; work may begin.
    Begin,
    /// The image is present; `pulled` when it had to be fetched.
    ImageReady { pulled: bool },
    /// The container exists under `runtime_id`.
    Created { runtime_id: String },
    /// A look at the install script's container.
    Polled { running: bool, exit_code: i32 },
    /// The final entrypoint is on disk.
    EntrypointWritten,
    /// A step failed.
    Failure { message: String },
}

/// What the runtime side must do next.
#[derive(Debug, PartialEq, Eq)]
pub enum InstallAction {
    /// Make the host paths and ensure the image is present.
    PullImage,
    /// Write the placeholder entrypoint and create the container.
    CreateContainer,
    /// Write the install script and its entrypoint, start the container,
    /// then look again after `INSTALL_POLL_SECS`.
    StartScript,
    /// Look again after `INSTALL_POLL_SECS`.
    WaitAndPoll,
    /// Stop the container and write the final entrypoint.
    StopAndWriteEntrypoint,
    /// Write the final entrypoint.
    WriteEntrypoint,
    /// Mark the record ready with the runtime id and start the container.
    MarkReadyAndStart,
    /// Mark the record failed with this message.
    MarkFailed(String),
    /// Nothing to do.
    Nothing,
}

/// One step of the install job: the job after `ev`, what to do next, and
/// the events to announce. Once done or failed the job ignores everything;
/// an event that does not fit the phase is ignored too.
pub open spec fn install_transition(job: InstallJob, ev: InstallEvent) -> (InstallJob, InstallAction, Seq<LifecycleEvent>) {
    let id = job.internal_id;
    let same = (job, InstallAction::Nothing, Seq::<LifecycleEvent>::empty());
    if job.phase == InstallPhase::Done || job.phase == InstallPhase::Failed {
        same
    } else {
        match ev {
            InstallEvent::Failure { message } => (
                InstallJob { phase: InstallPhase::Failed, ..job },
                InstallAction::MarkFailed(message),
                seq![LifecycleEvent::Error(id, message)],
            ),
            InstallEvent::Begin => if job.phase == InstallPhase::Pending {
                (
                    InstallJob { phase: InstallPhase::Pulling, ..job },
                    InstallAction::PullImage,
                    seq![LifecycleEvent::Started(id), LifecycleEvent::CreatingContainer(id)],
                )
            } else {
                same
            },
            InstallEvent::ImageReady { pulled } => if job.phase == InstallPhase::Pulling {
                (
                    InstallJob { phase: InstallPhase::Creating, ..job },
                    InstallAction::CreateContainer,
                    if pulled { seq![LifecycleEvent::ImagePulled(id, job.image)] } else { Seq::empty() },
                )
            } else {
                same
            },
            InstallEvent::Created { runtime_id } => if job.phase == InstallPhase::Creating {
                if job.has_script {
                    (
                        InstallJob { phase: InstallPhase::Scripting, waited_secs: 0, runtime_id: Some(runtime_id), ..job },
                        InstallAction::StartScript,
                        seq![LifecycleEvent::ContainerCreated(id, runtime_id), LifecycleEvent::RunningInstallScript(id)],
                    )
                } else {
                    (
                        InstallJob { phase: InstallPhase::Finalizing, runtime_id: Some(runtime_id), ..job },
                        InstallAction::WriteEntrypoint,
                        seq![LifecycleEvent::ContainerCreated(id, runtime_id), LifecycleEvent::SettingUpEntrypoint(id)],
                    )
                }
            } else {
                same
            },
            InstallEvent::Polled { running, exit_code } => if job.phase == InstallPhase::Scripting {
                if !running {
                    (
                        InstallJob { phase: InstallPhase::Finalizing, ..job },
                        InstallAction::StopAndWriteEntrypoint,
                        seq![LifecycleEvent::InstallScriptComplete(id, exit_code), LifecycleEvent::SettingUpEntrypoint(id)],
                    )
                } else if job.waited_secs + INSTALL_POLL_SECS >= INSTALL_TIMEOUT_SECS {
                    (
                        InstallJob { phase: InstallPhase::Finalizing, ..job },
                        InstallAction::StopAndWriteEntrypoint,
                        seq![LifecycleEvent::SettingUpEntrypoint(id)],
                    )
                } else {
                    (
                        InstallJob { waited_secs: (job.waited_secs + INSTALL_POLL_SECS) as u64, ..job },
                        InstallAction::WaitAndPoll,
                        Seq::empty(),
                    )
                }
            } else {
                same
            },
            InstallEvent::EntrypointWritten => if job.phase == InstallPhase::Finalizing {
                (InstallJob { phase: InstallPhase::Done, ..job }, InstallAction::MarkReadyAndStart, seq![LifecycleEvent::Ready(id)])
            } else {
                same
            },
        }
    }
}

/// One step of the install job.
pub fn install_step(job: &InstallJob, ev: InstallEvent) -> (r: (InstallJob, InstallAction, Vec<LifecycleEvent>))
    requires
        job.waited_secs < INSTALL_TIMEOUT_SECS,
    ensures
        (r.0, r.1, r.2@) == install_transition(*job, ev),
        r.0.waited_secs < INSTALL_TIMEOUT_SECS,
{
    let ghost e = ev;
    let mut next = job.clone();
    let mut out: Vec<LifecycleEvent> = Vec::new();
    if job.phase == InstallPhase::Done || job.phase == InstallPhase::Failed {
        return (next, InstallAction::Nothing, out);
    }
    let id = job.internal_id.clone();
    let action = match ev {
        InstallEvent::Failure { message } => {
            next.phase = InstallPhase::Failed;
            out.push(LifecycleEvent::Error(id, message.clone()));
            InstallAction::MarkFailed(message)
        },
        InstallEvent::Begin => {
            if job.phase != InstallPhase::Pending {
                return (next, InstallAction::Nothing, out);
            }
            next.phase = InstallPhase::Pulling;
            out.push(LifecycleEvent::Started(id.clone()));
            out.push(LifecycleEvent::CreatingContainer(id));
            InstallAction::PullImage
        },
        InstallEvent::ImageReady { pulled } => {
            if job.phase != InstallPhase::Pulling {
                return (next, InstallAction::Nothing, out);
            }
            next.phase = InstallPhase::Creating;
            if pulled {
                out.push(LifecycleEvent::ImagePulled(id, job.image.clone()));
            }
            InstallAction::CreateContainer
        },
        InstallEvent::Created { runtime_id } => {
            if job.phase != InstallPhase::Creating {
                return (next, InstallAction::Nothing, out);
            }
            out.push(LifecycleEvent::ContainerCreated(id.clone(), runtime_id.clone()));
            next.runtime_id = Some(runtime_id);
            if job.has_script {
                next.phase = InstallPhase::Scripting;
                next.waited_secs = 0;
                out.push(LifecycleEvent::RunningInstallScript(id));
                InstallAction::StartScript
            } else {
                next.phase = InstallPhase::Finalizing;
                out.push(LifecycleEvent::SettingUpEntrypoint(id));
                InstallAction::WriteEntrypoint
            }
        },
        InstallEvent::Polled { running, exit_code } => {
            if job.phase != InstallPhase::Scripting {
                return (next, InstallAction::Nothing, out);
            }
            if !running {
                next.phase = InstallPhase::Finalizing;
                out.push(LifecycleEvent::InstallScriptComplete(id.clone(), exit_code));
                out.push(LifecycleEvent::SettingUpEntrypoint(id));
                InstallAction::StopAndWriteEntrypoint
            } else if job.waited_secs + INSTALL_POLL_SECS >= INSTALL_TIMEOUT_SECS {
                next.phase = InstallPhase::Finalizing;
                out.push(LifecycleEvent::SettingUpEntrypoint(id));
                InstallAction::StopAndWriteEntrypoint
            } else {
                next.waited_secs = job.waited_secs + INSTALL_POLL_SECS;
                InstallAction::WaitAndPoll
            }
        },
        InstallEvent::EntrypointWritten => {
            if job.phase != InstallPhase::Finalizing {
                return (next, InstallAction::Nothing, out);
            }
            next.phase = InstallPhase::Done;
            out.push(LifecycleEvent::Ready(id));
            InstallAction::MarkReadyAndStart
        },
    };
    proof {
        assert(out@ =~= install_transition(*job, e).2);
    }
    (next, action, out)
}

/// The events of a run of install steps from `job`.
pub open spec fn install_run(job: InstallJob, evs: Seq<InstallEvent>) -> Seq<LifecycleEvent>
    decreases evs.len(),
{
    if evs.len() == 0 {
        Seq::empty()
    } else {
        let (next, _a, out) = install_transition(job, evs[0]);
        out + install_run(next, evs.drop_first())
    }
}

/// A successful install with a script announces, in order: started,
/// creating, image pulled, container created, running the script, script
/// complete, setting up the entrypoint, ready.
pub proof fn law_install_event_order(id: String, image: String, runtime_id: String, exit_code: i32)
    ensures
        install_run(
            InstallJob { internal_id: id, image, has_script: true, phase: InstallPhase::Pending, waited_secs: 0, runtime_id: None },
            seq![
                InstallEvent::Begin,
                InstallEvent::ImageReady { pulled: true },
                InstallEvent::Created { runtime_id },
                InstallEvent::Polled { running: false, exit_code },
                InstallEvent::EntrypointWritten
            ],
        ) == seq![
            LifecycleEvent::Started(id),
            LifecycleEvent::CreatingContainer(id),
            LifecycleEvent::ImagePulled(id, image),
            LifecycleEvent::ContainerCreated(id, runtime_id),
            LifecycleEvent::RunningInstallScript(id),
            LifecycleEvent::InstallScriptComplete(id, exit_code),
            LifecycleEvent::SettingUpEntrypoint(id),
            LifecycleEvent::Ready(id)
        ],
{
    let j0 = InstallJob { internal_id: id, image, has_script: true, phase: InstallPhase::Pending, waited_secs: 0, runtime_id: None };
    let evs = seq![
        InstallEvent::Begin,
        InstallEvent::ImageReady { pulled: true },
        InstallEvent::Created { runtime_id },
        InstallEvent::Polled { running: false, exit_code },
        InstallEvent::EntrypointWritten
    ];
    let j1 = InstallJob { phase: InstallPhase::Pulling, ..j0 };
    let j2 = InstallJob { phase: InstallPhase::Creating, ..j1 };
    let j3 = InstallJob { phase: InstallPhase::Scripting, waited_secs: 0, runtime_id: Some(runtime_id), ..j2 };
    let j4 = InstallJob { phase: InstallPhase::Finalizing, ..j3 };
    let j5 = InstallJob { phase: InstallPhase::Done, ..j4 };
    assert(evs.drop_first() =~= seq![evs[1], evs[2], evs[3], evs[4]]);
    assert(evs.drop_first().drop_first() =~= seq![evs[2], evs[3], evs[4]]);
    assert(evs.drop_first().drop_first().drop_first() =~= seq![evs[3], evs[4]]);
    assert(evs.drop_first().drop_first().drop_first().drop_first() =~= seq![evs[4]]);
    assert(evs.drop_first().drop_first().drop_first().drop_first().drop_first() =~= Seq::<InstallEvent>::empty());
    assert(install_run(j5, Seq::empty()) == Seq::<LifecycleEvent>::empty());
    assert(install_run(j4, seq![evs[4]]) =~= seq![LifecycleEvent::Ready(id)]);
    assert(install_run(j3, seq![evs[3], evs[4]]) =~= seq![
        LifecycleEvent::InstallScriptComplete(id, exit_code), LifecycleEvent::SettingUpEntrypoint(id), LifecycleEvent::Ready(id)
    ]);
    assert(install_run(j2, seq![evs[2], evs[3], evs[4]]) =~= seq![
        LifecycleEvent::ContainerCreated(id, runtime_id), LifecycleEvent::RunningInstallScript(id),
        LifecycleEvent::InstallScriptComplete(id, exit_code), LifecycleEvent::SettingUpEntrypoint(id), LifecycleEvent::Ready(id)
    ]);
    assert(install_run(j1, seq![evs[1], evs[2], evs[3], evs[4]]) =~= seq![
        LifecycleEvent::ImagePulled(id, image),
        LifecycleEvent::ContainerCreated(id, runtime_id), LifecycleEvent::RunningInstallScript(id),
        LifecycleEvent::InstallScriptComplete(id, exit_code), LifecycleEvent::SettingUpEntrypoint(id), LifecycleEvent::Ready(id)
    ]);
}

/// Most CPU a container may be given, in nano-CPUs (1024 cores).
pub const MAX_NANO_CPUS: i64 = 1024000000000;

/// How a container is recreated with new port bindings.
#[derive(Debug)]
pub struct RebindPlan {
    pub name: String,
    /// Binds as (target, source).
    pub mounts: Vec<(String, String)>,
    /// Published ports as ("<container_port>/<protocol>", host port text).
    pub ports: Vec<(String, String)>,
    pub memory: Option<i64>,
    pub nano_cpus: Option<i64>,
}

/// A user bind is kept when neither side is blank.
pub open spec fn bind_ok(m: (String, String)) -> bool {
    !crate::text::all_space(m.0@) && !crate::text::all_space(m.1@)
}

/// The published port of a rebind: protocol in lower case.
pub open spec fn rebind_port(b: PortBinding) -> (Seq<char>, Seq<char>) {
    (decimal(b.container_port as nat) + "/"@ + crate::fileinfo::lower_of(b.protocol@), decimal(b.host_port as nat))
}

/// A memory limit is applied only when positive.
pub open spec fn memory_applied(m: Option<i64>) -> Option<i64> {
    if m.is_some() && m.unwrap() > 0 { m } else { None }
}

/// A CPU limit is applied only within (0, 1024] cores.
pub open spec fn cpu_applied(c: Option<i64>) -> Option<i64> {
    if c.is_some() && c.unwrap() > 0 && c.unwrap() <= MAX_NANO_CPUS { c } else { None }
}

/// The recreation plan of `state` with the new `ports`: the volume under
/// `volumes_path`, the data directory under `containers_path`, the user's
/// binds that are not blank, the ports with lower-case protocols, and the
/// limits that apply.
pub fn rebind_plan(state: &ContainerState, ports: &Vec<PortBinding>, volumes_path: &str, containers_path: &str) -> (r: RebindPlan)
    ensures
        r.name@ == "lightd-"@ + state.internal_id@,
        pair_texts(r.mounts@) == seq![
            ("/home/container"@, volumes_path@ + "/"@ + state.volume_id@),
            ("/app/data"@, containers_path@ + "/"@ + state.internal_id@)
        ] + pair_texts(state.mount@.filter(|m: (String, String)| bind_ok(m))),
        pair_texts(r.ports@) == ports@.map_values(|b: PortBinding| rebind_port(b)),
        r.memory == memory_applied(state.limits.memory),
        r.nano_cpus == cpu_applied(state.limits.nano_cpus),
{
    let vol = String::from_str(volumes_path).concat("/").concat(state.volume_id.as_str());
    let data = String::from_str(containers_path).concat("/").concat(state.internal_id.as_str());
    let mut mounts: Vec<(String, String)> = Vec::new();
    mounts.push((String::from_str("/home/container"), vol));
    mounts.push((String::from_str("/app/data"), data));
    let ghost head = pair_texts(mounts@);
    let ghost pred = |m: (String, String)| bind_ok(m);
    let mut i: usize = 0;
    while i < state.mount.len()
        invariant
            i <= state.mount@.len(),
            pred == (|m: (String, String)| bind_ok(m)),
            pair_texts(mounts@) == head + pair_texts(state.mount@.subrange(0, i as int).filter(pred)),
        decreases state.mount.len() - i,
    {
        proof {
            reveal(Seq::filter);
            assert(state.mount@.subrange(0, i + 1).drop_last() =~= state.mount@.subrange(0, i as int));
        }
        let ghost prev = mounts@;
        if !crate::text::is_blank(state.mount[i].0.as_str()) && !crate::text::is_blank(state.mount[i].1.as_str()) {
            let m = (state.mount[i].0.clone(), state.mount[i].1.clone());
            mounts.push(m);
            proof {
                let f = state.mount@.subrange(0, i as int).filter(pred);
                assert(pair_texts(f.push(state.mount@[i as int])) =~= pair_texts(f).push((m.0@, m.1@)));
                assert(pair_texts(mounts@) =~= pair_texts(prev).push((m.0@, m.1@)));
            }
        }
        i = i + 1;
    }
    assert(state.mount@.subrange(0, state.mount@.len() as int) =~= state.mount@);
    let mut out: Vec<(String, String)> = Vec::new();
    let mut k: usize = 0;
    while k < ports.len()
        invariant
            k <= ports@.len(),
            pair_texts(out@) == ports@.subrange(0, k as int).map_values(|b: PortBinding| rebind_port(b)),
        decreases ports.len() - k,
    {
        let proto = crate::fileinfo::lowercase(ports[k].protocol.as_str());
        let key = decimal_string(ports[k].container_port as u64).concat("/").concat(proto.as_str());
        let host = decimal_string(ports[k].host_port as u64);
        let ghost prev = out@;
        let ghost item = (key@, host@);
        out.push((key, host));
        proof {
            assert(pair_texts(out@) =~= pair_texts(prev).push(item));
            assert(ports@.subrange(0, k + 1).map_values(|b: PortBinding| rebind_port(b))
                =~= ports@.subrange(0, k as int).map_values(|b: PortBinding| rebind_port(b)).push(item));
        }
        k = k + 1;
    }
    assert(ports@.subrange(0, ports@.len() as int) =~= ports@);
    let memory = match state.limits.memory {
        Some(m) => if m > 0 { Some(m) } else { None },
        None => None,
    };
    let nano_cpus = match state.limits.nano_cpus {
        Some(c) => if c > 0 && c <= MAX_NANO_CPUS { Some(c) } else { None },
        None => None,
    };
    RebindPlan { name: container_name(state.internal_id.as_str()), mounts, ports: out, memory, nano_cpus }
}

/// The runtime id that a live resource update targets, given the record
/// found: `NotFound` without a record, `Pending` without a runtime id.
pub fn update_target(state: Option<&ContainerState>) -> (r: Result<String, PowerError>)
    ensures
        state.is_none() ==> r == Err::<String, PowerError>(PowerError::NotFound),
        state.is_some() && state.unwrap().container_id.is_none() ==> r == Err::<String, PowerError>(PowerError::Pending),
        state.is_some() && state.unwrap().container_id.is_some() ==> r == Ok::<String, PowerError>(
            state.unwrap().container_id.unwrap(),
        ),
{
    power_target(state)
}

/// Where a rebind job stands.
#[derive(Debug, Clone, Copy, PartialEq, Eq, Structural)]
pub enum RebindPhase {
    Pending,
    Removing,
    Creating,
    Updating,
    Done,
    Failed,
}

/// What the runtime side reports to a rebind job.
#[derive(Debug, Clone, Copy, PartialEq, Eq, Structural)]
pub enum RebindEvent {
    /// The request passed its checks.
    Begin,
    /// The old instance is gone (or was absent).
    Removed,
    /// The new instance exists.
    Created,
    /// The registry holds the new ports and runtime id.
    Recorded,
    /// A step failed or timed out.
    Failure,
}

/// What the runtime side must do next in a rebind.
#[derive(Debug, Clone, Copy, PartialEq, Eq, Structural)]
pub enum RebindAction {
    /// Force-remove the old instance (30 s limit).
    RemoveOld,
    /// Create the new instance from the plan (60 s limit).
    CreateNew,
    /// Record the new ports and runtime id.
    Record,
    /// Report the error; the container stays without an instance.
    ReportError,
    Nothing,
}

/// One step of a rebind job: the next phase and action, and the kind of
/// the event to announce (as `NetworkEvent` names it), if any. Once done
/// or failed the job ignores everything; an event that does not fit the
/// phase is ignored too.
pub open spec fn rebind_transition(phase: RebindPhase, ev: RebindEvent) -> (RebindPhase, RebindAction, Seq<Seq<char>>) {
    let same = (phase, RebindAction::Nothing, Seq::<Seq<char>>::empty());
    if phase == RebindPhase::Done || phase == RebindPhase::Failed {
        same
    } else if ev == RebindEvent::Failure {
        (RebindPhase::Failed, RebindAction::ReportError, seq!["Error"@])
    } else if phase == RebindPhase::Pending && ev == RebindEvent::Begin {
        (RebindPhase::Removing, RebindAction::RemoveOld, seq!["RebindingStarted"@, "RemovingOldContainer"@])
    } else if phase == RebindPhase::Removing && ev == RebindEvent::Removed {
        (RebindPhase::Creating, RebindAction::CreateNew, seq!["CreatingNewContainer"@])
    } else if phase == RebindPhase::Creating && ev == RebindEvent::Created {
        (RebindPhase::Updating, RebindAction::Record, seq!["UpdatingDatabase"@])
    } else if phase == RebindPhase::Updating && ev == RebindEvent::Recorded {
        (RebindPhase::Done, RebindAction::Nothing, seq!["RebindingComplete"@])
    } else {
        same
    }
}

/// The announcement of a rebind step for container `id`.
fn network_event(kind: &str, id: &str, message: &str) -> (r: NetworkEvent)
    ensures
        network_event_kind(r) == if known_kind(kind@) { kind@ } else { "Error"@ },
{
    let s = String::from_str(id);
    if crate::text::same_text(kind, "RebindingStarted") {
        NetworkEvent::RebindingStarted(s)
    } else if crate::text::same_text(kind, "RemovingOldContainer") {
        NetworkEvent::RemovingOldContainer(s)
    } else if crate::text::same_text(kind, "CreatingNewContainer") {
        NetworkEvent::CreatingNewContainer(s)
    } else if crate::text::same_text(kind, "UpdatingDatabase") {
        NetworkEvent::UpdatingDatabase(s)
    } else if crate::text::same_text(kind, "RebindingComplete") {
        NetworkEvent::RebindingComplete(s)
    } else {
        NetworkEvent::Error(s, String::from_str(message))
    }
}

/// A rebind announcement other than an error.
pub open spec fn known_kind(k: Seq<char>) -> bool {
    k == "RebindingStarted"@ || k == "RemovingOldContainer"@ || k == "CreatingNewContainer"@ || k == "UpdatingDatabase"@
        || k == "RebindingComplete"@
}

/// The kind of a rebind announcement.
pub open spec fn network_event_kind(e: NetworkEvent) -> Seq<char> {
    match e {
        NetworkEvent::RebindingStarted(_) => "RebindingStarted"@,
        NetworkEvent::RemovingOldContainer(_) => "RemovingOldContainer"@,
        NetworkEvent::CreatingNewContainer(_) => "CreatingNewContainer"@,
        NetworkEvent::UpdatingDatabase(_) => "UpdatingDatabase"@,
        NetworkEvent::RebindingComplete(_) => "RebindingComplete"@,
        NetworkEvent::Error(_, _) => "Error"@,
    }
}

/// One step of a rebind job for container `internal_id`; `message` is the
/// text of a failure.
pub fn rebind_step(phase: RebindPhase, ev: RebindEvent, internal_id: &str, message: &str) -> (r: (RebindPhase, RebindAction, Vec<NetworkEvent>))
    ensures
        r.0 == rebind_transition(phase, ev).0,
        r.1 == rebind_transition(phase, ev).1,
        r.2@.map_values(|e: NetworkEvent| network_event_kind(e)) == rebind_transition(phase, ev).2,
{
    let (next, action, kinds): (RebindPhase, RebindAction, Vec<&str>) = if phase == RebindPhase::Done || phase == RebindPhase::Failed {
        (phase, RebindAction::Nothing, Vec::new())
    } else if ev == RebindEvent::Failure {
        (RebindPhase::Failed, RebindAction::ReportError, vec!["Error"])
    } else if phase == RebindPhase::Pending && ev == RebindEvent::Begin {
        (RebindPhase::Removing, RebindAction::RemoveOld, vec!["RebindingStarted", "RemovingOldContainer"])
    } else if phase == RebindPhase::Removing && ev == RebindEvent::Removed {
        (RebindPhase::Creating, RebindAction::CreateNew, vec!["CreatingNewContainer"])
    } else if phase == RebindPhase::Creating && ev == RebindEvent::Created {
        (RebindPhase::Updating, RebindAction::Record, vec!["UpdatingDatabase"])
    } else if phase == RebindPhase::Updating && ev == RebindEvent::Recorded {
        (RebindPhase::Done, RebindAction::Nothing, vec!["RebindingComplete"])
    } else {
        (phase, RebindAction::Nothing, Vec::new())
    };
    proof {
        reveal_strlit("RebindingStarted");
        reveal_strlit("RemovingOldContainer");
        reveal_strlit("CreatingNewContainer");
        reveal_strlit("UpdatingDatabase");
        reveal_strlit("RebindingComplete");
        reveal_strlit("Error");
    }
    assert(forall|k: int| 0 <= k < kinds@.len() ==> known_kind(#[trigger] kinds@[k]@) || kinds@[k]@ == "Error"@);
    assert(!known_kind("Error"@)) by {
        assert("Error"@.len() == 5);
        assert("RebindingStarted"@.len() == 16);
        assert("RemovingOldContainer"@.len() == 20);
        assert("CreatingNewContainer"@.len() == 20);
        assert("UpdatingDatabase"@.len() == 16);
        assert("RebindingComplete"@.len() == 17);
    }
    let mut out: Vec<NetworkEvent> = Vec::new();
    let mut i: usize = 0;
    while i < kinds.len()
        invariant
            i <= kinds@.len(),
            forall|k: int| 0 <= k < kinds@.len() ==> known_kind(#[trigger] kinds@[k]@) || kinds@[k]@ == "Error"@,
            !known_kind("Error"@),
            out@.len() == i,
            forall|k: int| 0 <= k < i ==> network_event_kind(#[trigger] out@[k]) == kinds@[k]@,
        decreases kinds.len() - i,
    {
        out.push(network_event(kinds[i], internal_id, message));
        i = i + 1;
    }
    proof {
        reveal_strlit("RebindingStarted");
        reveal_strlit("RemovingOldContainer");
        reveal_strlit("CreatingNewContainer");
        reveal_strlit("UpdatingDatabase");
        reveal_strlit("RebindingComplete");
        reveal_strlit("Error");
        assert(out@.map_values(|e: NetworkEvent| network_event_kind(e)) =~= kinds@.map_values(|k: &str| k@));
        assert(kinds@.map_values(|k: &str| k@) =~= rebind_transition(phase, ev).2);
    }
    (next, action, out)
}

} // verus!

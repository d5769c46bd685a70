//! The durable record of one container and its well-formedness rules.

use vstd::prelude::*;
use crate::text::{join, texts, join_strings};

verus! {

/// Seconds an install may run before the record counts as stuck.
pub const STUCK_AFTER_SECS: u64 = 600;

/// Where a container stands in its install lifecycle.
#[derive(Debug, Clone, Copy, PartialEq, Eq, Structural)]
pub enum InstallState {
    Ready,
    Installing,
    Failed,
}

/// A container port published on a host port of the pool.
#[derive(Debug)]
pub struct PortBinding {
    pub container_port: u16,
    pub host_port: u16,
    /// "tcp" or "udp".
    pub protocol: String,
}

impl Clone for PortBinding {
    fn clone(&self) -> (r: Self)
        ensures
            r == *self,
    {
        PortBinding { container_port: self.container_port, host_port: self.host_port, protocol: self.protocol.clone() }
    }
}

/// Resource limits recorded with the container. The CPU limit is held in
/// nano-CPUs (one core is 1 000 000 000).
#[derive(Debug, Clone, Copy, PartialEq, Eq, Structural)]
pub struct ContainerLimits {
    pub memory: Option<i64>,
    pub nano_cpus: Option<i64>,
    pub disk: Option<i64>,
}

/// The durable state of one container, keyed by `internal_id`.
#[derive(Debug)]
pub struct ContainerState {
    pub internal_id: String,
    pub volume_id: String,
    /// Extra binds: in-container path, host path.
    pub mount: Vec<(String, String)>,
    pub limits: ContainerLimits,
    /// The runtime's identifier, absent until an install succeeds.
    pub container_id: Option<String>,
    pub ports: Vec<PortBinding>,
    pub is_installing: bool,
    pub install_state: InstallState,
    pub startup_command: String,
    pub created_at: u64,
    pub updated_at: u64,
    /// Pattern whose match on a console line marks the server as running.
    pub start_pattern: Option<String>,
}

/// Clone of a list of string pairs.
fn clone_pairs(v: &Vec<(String, String)>) -> (r: Vec<(String, String)>)
    ensures
        r@ == v@,
{
    let mut r: Vec<(String, String)> = Vec::new();
    let mut i: usize = 0;
    while i < v.len()
        invariant
            i <= v@.len(),
            r@ == v@.subrange(0, i as int),
        decreases v.len() - i,
    {
        let pair = (v[i].0.clone(), v[i].1.clone());
        r.push(pair);
        assert(r@ =~= v@.subrange(0, i + 1));
        i = i + 1;
    }
    assert(v@.subrange(0, v@.len() as int) =~= v@);
    r
}

/// Clone of a list of port bindings.
pub fn clone_bindings(v: &Vec<PortBinding>) -> (r: Vec<PortBinding>)
    ensures
        r@ == v@,
{
    let mut r: Vec<PortBinding> = Vec::new();
    let mut i: usize = 0;
    while i < v.len()
        invariant
            i <= v@.len(),
            r@ == v@.subrange(0, i as int),
        decreases v.len() - i,
    {
        r.push(v[i].clone());
        assert(r@ =~= v@.subrange(0, i + 1));
        i = i + 1;
    }
    assert(v@.subrange(0, v@.len() as int) =~= v@);
    r
}

/// Clone of an optional string.
pub fn clone_opt(o: &Option<String>) -> (r: Option<String>)
    ensures
        r == *o,
{
    match o {
        Some(s) => Some(s.clone()),
        None => None,
    }
}

impl Clone for ContainerState {
    fn clone(&self) -> (r: Self)
        ensures
            r.same_as(self),
    {
        ContainerState {
            internal_id: self.internal_id.clone(),
            volume_id: self.volume_id.clone(),
            mount: clone_pairs(&self.mount),
            limits: self.limits,
            container_id: clone_opt(&self.container_id),
            ports: clone_bindings(&self.ports),
            is_installing: self.is_installing,
            install_state: self.install_state,
            startup_command: self.startup_command.clone(),
            created_at: self.created_at,
            updated_at: self.updated_at,
            start_pattern: clone_opt(&self.start_pattern),
        }
    }
}

/// A problem that makes a record unhealthy.
#[derive(Debug, Clone, Copy, PartialEq, Eq, Structural)]
pub enum StateIssue {
    StuckInstalling,
    ReadyWithoutRuntime,
    EmptyInternalId,
    EmptyVolumeId,
    EmptyStartupCommand,
}

impl StateIssue {
    /// The text reported for this issue.
    pub open spec fn text(self) -> Seq<char> {
        match self {
            StateIssue::StuckInstalling => "Container stuck in installing state"@,
            StateIssue::ReadyWithoutRuntime => "Container marked ready but has no container ID"@,
            StateIssue::EmptyInternalId => "Container has empty internal_id"@,
            StateIssue::EmptyVolumeId => "Container has empty volume_id"@,
            StateIssue::EmptyStartupCommand => "Container has empty startup_command"@,
        }
    }

    /// The text reported for this issue.
    pub fn message(&self) -> (r: String)
        ensures
            r@ == self.text(),
    {
        match self {
            StateIssue::StuckInstalling => String::from_str("Container stuck in installing state"),
            StateIssue::ReadyWithoutRuntime => String::from_str(
                "Container marked ready but has no container ID",
            ),
            StateIssue::EmptyInternalId => String::from_str("Container has empty internal_id"),
            StateIssue::EmptyVolumeId => String::from_str("Container has empty volume_id"),
            StateIssue::EmptyStartupCommand => String::from_str("Container has empty startup_command"),
        }
    }
}

impl ContainerState {
    /// The record holds its two lifecycle invariants: the installing flag
    /// mirrors the install state, and a ready container has a runtime id.
    pub open spec fn wf(&self) -> bool {
        &&& self.is_installing == (self.install_state == InstallState::Installing)
        &&& self.install_state == InstallState::Ready ==> self.container_id.is_some()
    }

    /// The install has run longer than allowed at time `now`.
    pub open spec fn stuck_at(&self, now: u64) -> bool {
        self.is_installing && now as int - self.updated_at as int > STUCK_AFTER_SECS as int
    }

    /// Every issue of the record at time `now`, in reporting order.
    pub open spec fn issues_at(&self, now: u64) -> Seq<StateIssue> {
        let a = if self.stuck_at(now) { seq![StateIssue::StuckInstalling] } else { Seq::empty() };
        let b = if self.install_state == InstallState::Ready && self.container_id.is_none() {
            seq![StateIssue::ReadyWithoutRuntime]
        } else {
            Seq::empty()
        };
        let c = if self.internal_id@.len() == 0 { seq![StateIssue::EmptyInternalId] } else { Seq::empty() };
        let d = if self.volume_id@.len() == 0 { seq![StateIssue::EmptyVolumeId] } else { Seq::empty() };
        let e = if self.startup_command@.len() == 0 {
            seq![StateIssue::EmptyStartupCommand]
        } else {
            Seq::empty()
        };
        a + b + c + d + e
    }

    /// The report of validation: healthy, or the issue texts joined by "; ".
    pub open spec fn report_at(&self, now: u64) -> (bool, Option<Seq<char>>) {
        let issues = self.issues_at(now);
        if issues.len() == 0 {
            (true, None)
        } else {
            (false, Some(join(issues.map_values(|i: StateIssue| i.text()), "; "@)))
        }
    }

    /// The two records agree on everything but their timestamps.
    pub open spec fn same_but_times(&self, other: &ContainerState) -> bool {
        &&& self.internal_id@ == other.internal_id@
        &&& self.volume_id@ == other.volume_id@
        &&& self.mount@ == other.mount@
        &&& self.limits == other.limits
        &&& self.container_id == other.container_id
        &&& self.ports@ == other.ports@
        &&& self.is_installing == other.is_installing
        &&& self.install_state == other.install_state
        &&& self.startup_command@ == other.startup_command@
        &&& self.start_pattern == other.start_pattern
    }

    /// The two records hold the same values.
    pub open spec fn same_as(&self, other: &ContainerState) -> bool {
        &&& self.same_but_times(other)
        &&& self.created_at == other.created_at
        &&& self.updated_at == other.updated_at
    }

    /// A fresh record: installing, no runtime id, no ports, mounts or limits,
    /// both timestamps set to `now`.
    pub fn new(internal_id: String, volume_id: String, startup_command: String, now: u64) -> (r: Self)
        ensures
            r.internal_id == internal_id,
            r.volume_id == volume_id,
            r.startup_command == startup_command,
            r.mount@.len() == 0,
            r.ports@.len() == 0,
            r.limits == (ContainerLimits { memory: None, nano_cpus: None, disk: None }),
            r.container_id.is_none(),
            r.install_state == InstallState::Installing,
            r.is_installing,
            r.created_at == now,
            r.updated_at == now,
            r.start_pattern.is_none(),
            r.wf(),
    {
        ContainerState {
            internal_id,
            volume_id,
            mount: Vec::new(),
            limits: ContainerLimits { memory: None, nano_cpus: None, disk: None },
            container_id: None,
            ports: Vec::new(),
            is_installing: true,
            install_state: InstallState::Installing,
            startup_command,
            created_at: now,
            updated_at: now,
            start_pattern: None,
        }
    }

    /// Sets the modification time to `now`.
    pub fn update_timestamp(&mut self, now: u64)
        ensures
            *final(self) == (ContainerState { updated_at: now, ..*old(self) }),
    {
        self.updated_at = now;
    }

    /// The issues of the record at time `now`, in reporting order.
    pub fn issues(&self, now: u64) -> (r: Vec<StateIssue>)
        ensures
            r@ == self.issues_at(now),
    {
        let mut r: Vec<StateIssue> = Vec::new();
        if self.is_installing && now >= self.updated_at && now - self.updated_at > STUCK_AFTER_SECS {
            r.push(StateIssue::StuckInstalling);
        }
        if self.install_state == InstallState::Ready && self.container_id.is_none() {
            r.push(StateIssue::ReadyWithoutRuntime);
        }
        if self.internal_id.as_str().is_empty() {
            r.push(StateIssue::EmptyInternalId);
        }
        if self.volume_id.as_str().is_empty() {
            r.push(StateIssue::EmptyVolumeId);
        }
        if self.startup_command.as_str().is_empty() {
            r.push(StateIssue::EmptyStartupCommand);
        }
        assert(r@ =~= self.issues_at(now));
        r
    }

    /// Health report at time `now`: `(true, None)` when no issue is found,
    /// otherwise `false` and the issue texts joined by "; ".
    pub fn validate(&self, now: u64) -> (r: (bool, Option<String>))
        ensures
            r.0 == self.report_at(now).0,
            r.1.is_some() == self.report_at(now).1.is_some(),
            r.1.is_some() ==> r.1.unwrap()@ == self.report_at(now).1.unwrap(),
    {
        let issues = self.issues(now);
        if issues.len() == 0 {
            return (true, None);
        }
        let mut texts_v: Vec<String> = Vec::new();
        let mut i: usize = 0;
        while i < issues.len()
            invariant
                i <= issues@.len(),
                texts_v@.len() == i,
                forall|k: int| 0 <= k < i ==> #[trigger] texts_v@[k]@ == issues@[k].text(),
            decreases issues.len() - i,
        {
            let m = issues[i].message();
            texts_v.push(m);
            i = i + 1;
        }
        let joined = join_strings(&texts_v, "; ");
        assert(texts(texts_v@) =~= issues@.map_values(|x: StateIssue| x.text()));
        (false, Some(joined))
    }
}

} // verus!

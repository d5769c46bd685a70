//! The container registry: every container record, keyed by internal id.

use vstd::prelude::*;
use crate::state::{ContainerLimits, ContainerState, InstallState, PortBinding};
use crate::update::ResourceLimits;
use crate::text::same_text;

verus! {

/// Why a registry operation did not complete.
#[derive(Debug, Clone, Copy, PartialEq, Eq, Structural)]
pub enum RegistryError {
    /// No record has the given internal id.
    NotFound,
    /// A record with the given internal id already exists.
    Conflict,
    /// The record would break the lifecycle invariants.
    Corrupt,
}

/// Some record in `v` has internal id `id`.
pub open spec fn holds(v: Seq<ContainerState>, id: Seq<char>) -> bool {
    exists|i: int| 0 <= i < v.len() && (#[trigger] v[i]).internal_id@ == id
}

/// The position of the record with internal id `id`.
pub open spec fn index_of(v: Seq<ContainerState>, id: Seq<char>) -> int {
    choose|i: int| 0 <= i < v.len() && (#[trigger] v[i]).internal_id@ == id
}

/// No two records share an internal id.
pub open spec fn ids_unique(v: Seq<ContainerState>) -> bool {
    forall|i: int, j: int|
        0 <= i < v.len() && 0 <= j < v.len() && i != j ==> (#[trigger] v[i]).internal_id@ != (#[trigger] v[j]).internal_id@
}

/// Every record in `v` holds the lifecycle invariants.
pub open spec fn all_wf(v: Seq<ContainerState>) -> bool {
    forall|i: int| 0 <= i < v.len() ==> (#[trigger] v[i]).wf()
}

/// The record of `v` with internal id `id`, if any.
pub open spec fn lookup_in(v: Seq<ContainerState>, id: Seq<char>) -> Option<ContainerState> {
    if holds(v, id) {
        Some(v[index_of(v, id)])
    } else {
        None
    }
}

/// Under unique ids, the record at `i` is the one that `index_of` names.
pub proof fn lemma_index_of(v: Seq<ContainerState>, id: Seq<char>, i: int)
    requires
        ids_unique(v),
        0 <= i < v.len(),
        v[i].internal_id@ == id,
    ensures
        holds(v, id),
        index_of(v, id) == i,
{
    assert(holds(v, id));
    let j = index_of(v, id);
    assert(v[j].internal_id@ == id);
}

/// `s` marked ready with runtime id `cid` at time `now`.
pub open spec fn readied(s: ContainerState, cid: String, now: u64) -> ContainerState {
    ContainerState {
        is_installing: false,
        install_state: InstallState::Ready,
        container_id: Some(cid),
        updated_at: now,
        ..s
    }
}

/// `s` marked failed at time `now`.
pub open spec fn failed(s: ContainerState, now: u64) -> ContainerState {
    ContainerState { is_installing: false, install_state: InstallState::Failed, updated_at: now, ..s }
}

/// `s` marked installing at time `now`, its runtime id cleared.
pub open spec fn reinstalling(s: ContainerState, now: u64) -> ContainerState {
    ContainerState {
        is_installing: true,
        install_state: InstallState::Installing,
        container_id: None,
        updated_at: now,
        ..s
    }
}

/// The registry of container records.
pub struct ContainerManager {
    containers: Vec<ContainerState>,
}

impl ContainerManager {
    /// The records, in insertion order.
    pub closed spec fn records(&self) -> Seq<ContainerState> {
        self.containers@
    }

    /// Ids are unique and every record holds the lifecycle invariants.
    pub open spec fn wf(&self) -> bool {
        ids_unique(self.records()) && all_wf(self.records())
    }

    /// The record with internal id `id`, if any.
    pub open spec fn lookup(&self, id: Seq<char>) -> Option<ContainerState> {
        lookup_in(self.records(), id)
    }

    /// An empty registry.
    pub fn new() -> (r: Self)
        ensures
            r.wf(),
            r.records().len() == 0,
    {
        ContainerManager { containers: Vec::new() }
    }

    /// Position of the record with internal id `id`.
    fn find(&self, id: &str) -> (r: Option<usize>)
        requires
            self.wf(),
        ensures
            r.is_none() == !holds(self.records(), id@),
            r.is_some() ==> r.unwrap() == index_of(self.records(), id@),
            r.is_some() ==> r.unwrap() < self.records().len(),
    {
        let mut i: usize = 0;
        while i < self.containers.len()
            invariant
                i <= self.containers@.len(),
                self.wf(),
                forall|k: int| 0 <= k < i ==> (#[trigger] self.containers@[k]).internal_id@ != id@,
            decreases self.containers.len() - i,
        {
            if same_text(self.containers[i].internal_id.as_str(), id) {
                proof {
                    lemma_index_of(self.records(), id@, i as int);
                }
                return Some(i);
            }
            i = i + 1;
        }
        None
    }

    /// Adds a fresh installing record. Fails with `Conflict` when the id is taken.
    pub fn create_container(
        &mut self,
        internal_id: String,
        volume_id: String,
        startup_command: String,
        now: u64,
    ) -> (r: Result<ContainerState, RegistryError>)
        requires
            old(self).wf(),
        ensures
            final(self).wf(),
            holds(old(self).records(), internal_id@) ==> r == Err::<ContainerState, RegistryError>(
                RegistryError::Conflict,
            ) && final(self).records() == old(self).records(),
            !holds(old(self).records(), internal_id@) ==> {
                &&& r is Ok
                &&& final(self).records().len() == old(self).records().len() + 1
                &&& final(self).records().drop_last() == old(self).records()
                &&& r->Ok_0.same_as(&final(self).records().last())
                &&& r->Ok_0.internal_id@ == internal_id@
                &&& r->Ok_0.volume_id@ == volume_id@
                &&& r->Ok_0.startup_command@ == startup_command@
                &&& r->Ok_0.mount@.len() == 0
                &&& r->Ok_0.ports@.len() == 0
                &&& r->Ok_0.container_id.is_none()
                &&& r->Ok_0.install_state == InstallState::Installing
                &&& r->Ok_0.is_installing
                &&& r->Ok_0.start_pattern.is_none()
                &&& r->Ok_0.created_at == now
                &&& r->Ok_0.updated_at == now
            },
    {
        if self.find(internal_id.as_str()).is_some() {
            return Err(RegistryError::Conflict);
        }
        let state = ContainerState::new(internal_id, volume_id, startup_command, now);
        let copy = state.clone();
        let ghost before = self.containers@;
        self.containers.push(state);
        proof {
            assert(self.containers@.drop_last() =~= before);
            assert forall|i: int, j: int|
                0 <= i < self.containers@.len() && 0 <= j < self.containers@.len() && i != j
                implies (#[trigger] self.containers@[i]).internal_id@ != (#[trigger] self.containers@[j]).internal_id@ by {
                if i < before.len() && j < before.len() {
                    assert(before[i] == self.containers@[i]);
                    assert(before[j] == self.containers@[j]);
                } else if i < before.len() {
                    assert(before[i] == self.containers@[i]);
                } else {
                    assert(before[j] == self.containers@[j]);
                }
            }
            assert forall|i: int| 0 <= i < self.containers@.len() implies (#[trigger] self.containers@[i]).wf() by {
                if i < before.len() {
                    assert(before[i] == self.containers@[i]);
                }
            }
        }
        Ok(copy)
    }

    /// A copy of the record with internal id `id`, if any.
    pub fn get_container(&self, internal_id: &str) -> (r: Option<ContainerState>)
        requires
            self.wf(),
        ensures
            r.is_some() == self.lookup(internal_id@).is_some(),
            r.is_some() ==> r.unwrap().same_as(&self.lookup(internal_id@).unwrap()),
    {
        match self.find(internal_id) {
            Some(i) => Some(self.containers[i].clone()),
            None => None,
        }
    }

    /// Copies of all records, in insertion order.
    pub fn list_containers(&self) -> (r: Vec<ContainerState>)
        ensures
            r@.len() == self.records().len(),
            forall|i: int| 0 <= i < r@.len() ==> (#[trigger] r@[i]).same_as(&self.records()[i]),
    {
        let mut r: Vec<ContainerState> = Vec::new();
        let mut i: usize = 0;
        while i < self.containers.len()
            invariant
                i <= self.containers@.len(),
                r@.len() == i,
                forall|k: int| 0 <= k < i ==> (#[trigger] r@[k]).same_as(&self.containers@[k]),
            decreases self.containers.len() - i,
        {
            r.push(self.containers[i].clone());
            i = i + 1;
        }
        r
    }

    /// Replaces the record at position `i` with `s`.
    fn replace_at(&mut self, i: usize, s: ContainerState)
        requires
            old(self).wf(),
            i < old(self).records().len(),
            s.wf(),
            s.internal_id@ == old(self).records()[i as int].internal_id@,
        ensures
            final(self).wf(),
            final(self).records() == old(self).records().update(i as int, s),
    {
        let ghost before = self.containers@;
        self.containers.set(i, s);
        proof {
            assert forall|a: int, b: int|
                0 <= a < self.containers@.len() && 0 <= b < self.containers@.len() && a != b
                implies (#[trigger] self.containers@[a]).internal_id@ != (#[trigger] self.containers@[b]).internal_id@ by {
                assert(before[a].internal_id@ == self.containers@[a].internal_id@);
                assert(before[b].internal_id@ == self.containers@[b].internal_id@);
            }
        }
    }

    /// Writes `state` under its internal id, stamped with `now`: replaces the
    /// record with that id, or adds one. Fails with `Corrupt` when `state`
    /// breaks the lifecycle invariants.
    pub fn update_container(&mut self, state: ContainerState, now: u64) -> (r: Result<(), RegistryError>)
        requires
            old(self).wf(),
        ensures
            final(self).wf(),
            !state.wf() ==> r == Err::<(), RegistryError>(RegistryError::Corrupt)
                && final(self).records() == old(self).records(),
            state.wf() ==> r is Ok,
            state.wf() && holds(old(self).records(), state.internal_id@) ==> final(self).records()
                == old(self).records().update(
                index_of(old(self).records(), state.internal_id@),
                ContainerState { updated_at: now, ..state },
            ),
            state.wf() && !holds(old(self).records(), state.internal_id@) ==> final(self).records()
                == old(self).records().push(ContainerState { updated_at: now, ..state }),
    {
        let healthy = state.is_installing == (state.install_state == InstallState::Installing)
            && (state.install_state != InstallState::Ready || state.container_id.is_some());
        if !healthy {
            return Err(RegistryError::Corrupt);
        }
        let mut state = state;
        state.update_timestamp(now);
        match self.find(state.internal_id.as_str()) {
            Some(i) => {
                self.replace_at(i, state);
            },
            None => {
                let ghost before = self.containers@;
                self.containers.push(state);
                proof {
                    assert forall|a: int, b: int|
                        0 <= a < self.containers@.len() && 0 <= b < self.containers@.len() && a != b
                        implies (#[trigger] self.containers@[a]).internal_id@ != (#[trigger] self.containers@[b]).internal_id@ by {
                        if a < before.len() {
                            assert(before[a] == self.containers@[a]);
                        }
                        if b < before.len() {
                            assert(before[b] == self.containers@[b]);
                        }
                    }
                    assert forall|a: int| 0 <= a < self.containers@.len() implies (#[trigger] self.containers@[a]).wf() by {
                        if a < before.len() {
                            assert(before[a] == self.containers@[a]);
                        }
                    }
                }
            },
        }
        Ok(())
    }

    /// Replaces the record at position `i` with `s`, which keeps its id.
    fn swap_at(&mut self, i: usize, s: ContainerState) -> (prev: ContainerState)
        requires
            old(self).wf(),
            i < old(self).records().len(),
            s.wf(),
            s.internal_id@ == old(self).records()[i as int].internal_id@,
        ensures
            final(self).wf(),
            final(self).records() == old(self).records().update(i as int, s),
            prev == old(self).records()[i as int],
    {
        let ghost before = self.containers@;
        let prev = self.containers.remove(i);
        self.containers.insert(i, s);
        proof {
            assert(self.containers@ =~= before.update(i as int, s));
            assert forall|a: int, b: int|
                0 <= a < self.containers@.len() && 0 <= b < self.containers@.len() && a != b
                implies (#[trigger] self.containers@[a]).internal_id@ != (#[trigger] self.containers@[b]).internal_id@ by {
                assert(before[a].internal_id@ == self.containers@[a].internal_id@);
                assert(before[b].internal_id@ == self.containers@[b].internal_id@);
            }
        }
        prev
    }

    /// The record at position `i`, moved out and replaced by a copy.
    fn take_at(&mut self, i: usize) -> (s: ContainerState)
        requires
            old(self).wf(),
            i < old(self).records().len(),
        ensures
            final(self).wf(),
            final(self).records().len() == old(self).records().len(),
            forall|k: int| 0 <= k < old(self).records().len() && k != i ==> final(self).records()[k] == old(self).records()[k],
            final(self).records()[i as int].same_as(&old(self).records()[i as int]),
            s == old(self).records()[i as int],
    {
        let copy = self.containers[i].clone();
        let s = self.swap_at(i, copy);
        s
    }

    /// Marks the record ready with runtime id `container_id`.
    pub fn mark_ready(&mut self, internal_id: &str, container_id: String, now: u64) -> (r: Result<(), RegistryError>)
        requires
            old(self).wf(),
        ensures
            final(self).wf(),
            !holds(old(self).records(), internal_id@) ==> r == Err::<(), RegistryError>(RegistryError::NotFound)
                && final(self).records() == old(self).records(),
            holds(old(self).records(), internal_id@) ==> r is Ok && final(self).records() == old(self).records().update(
                index_of(old(self).records(), internal_id@),
                readied(old(self).records()[index_of(old(self).records(), internal_id@)], container_id, now),
            ),
    {
        match self.find(internal_id) {
            None => Err(RegistryError::NotFound),
            Some(i) => {
                let ghost before = self.records();
                let mut s = self.take_at(i);
                s.is_installing = false;
                s.install_state = InstallState::Ready;
                s.container_id = Some(container_id);
                s.updated_at = now;
                self.swap_at(i, s);
                assert(self.records() =~= before.update(i as int, s));
                Ok(())
            },
        }
    }

    /// Marks the record failed. `error_message` is the reason, for the log.
    pub fn mark_failed(&mut self, internal_id: &str, error_message: &str, now: u64) -> (r: Result<(), RegistryError>)
        requires
            old(self).wf(),
        ensures
            final(self).wf(),
            !holds(old(self).records(), internal_id@) ==> r == Err::<(), RegistryError>(RegistryError::NotFound)
                && final(self).records() == old(self).records(),
            holds(old(self).records(), internal_id@) ==> r is Ok && final(self).records() == old(self).records().update(
                index_of(old(self).records(), internal_id@),
                failed(old(self).records()[index_of(old(self).records(), internal_id@)], now),
            ),
    {
        match self.find(internal_id) {
            None => Err(RegistryError::NotFound),
            Some(i) => {
                let ghost before = self.records();
                let mut s = self.take_at(i);
                s.is_installing = false;
                s.install_state = InstallState::Failed;
                s.updated_at = now;
                self.swap_at(i, s);
                assert(self.records() =~= before.update(i as int, s));
                Ok(())
            },
        }
    }

    /// Marks the record installing again and clears its runtime id; returns
    /// a copy of the new record.
    pub fn mark_installing(&mut self, internal_id: &str, now: u64) -> (r: Result<ContainerState, RegistryError>)
        requires
            old(self).wf(),
        ensures
            final(self).wf(),
            !holds(old(self).records(), internal_id@) ==> r == Err::<ContainerState, RegistryError>(
                RegistryError::NotFound,
            ) && final(self).records() == old(self).records(),
            holds(old(self).records(), internal_id@) ==> {
                let i = index_of(old(self).records(), internal_id@);
                &&& r is Ok
                &&& final(self).records() == old(self).records().update(i, reinstalling(old(self).records()[i], now))
                &&& r->Ok_0.same_as(&final(self).records()[i])
            },
    {
        match self.find(internal_id) {
            None => Err(RegistryError::NotFound),
            Some(i) => {
                let ghost before = self.records();
                let mut s = self.take_at(i);
                s.is_installing = true;
                s.install_state = InstallState::Installing;
                s.container_id = None;
                s.updated_at = now;
                let copy = s.clone();
                self.swap_at(i, s);
                assert(self.records() =~= before.update(i as int, s));
                Ok(copy)
            },
        }
    }

    /// Replaces the startup command of the record.
    pub fn update_startup_command(&mut self, internal_id: &str, startup_command: String, now: u64) -> (r: Result<(), RegistryError>)
        requires
            old(self).wf(),
        ensures
            final(self).wf(),
            !holds(old(self).records(), internal_id@) ==> r == Err::<(), RegistryError>(RegistryError::NotFound)
                && final(self).records() == old(self).records(),
            holds(old(self).records(), internal_id@) ==> r is Ok && final(self).records() == old(self).records().update(
                index_of(old(self).records(), internal_id@),
                ContainerState {
                    startup_command,
                    updated_at: now,
                    ..old(self).records()[index_of(old(self).records(), internal_id@)]
                },
            ),
    {
        match self.find(internal_id) {
            None => Err(RegistryError::NotFound),
            Some(i) => {
                let ghost before = self.records();
                let mut s = self.take_at(i);
                s.startup_command = startup_command;
                s.updated_at = now;
                self.swap_at(i, s);
                assert(self.records() =~= before.update(i as int, s));
                Ok(())
            },
        }
    }

    /// Replaces the start pattern of the record.
    pub fn update_start_pattern(&mut self, internal_id: &str, start_pattern: Option<String>, now: u64) -> (r: Result<(), RegistryError>)
        requires
            old(self).wf(),
        ensures
            final(self).wf(),
            !holds(old(self).records(), internal_id@) ==> r == Err::<(), RegistryError>(RegistryError::NotFound)
                && final(self).records() == old(self).records(),
            holds(old(self).records(), internal_id@) ==> r is Ok && final(self).records() == old(self).records().update(
                index_of(old(self).records(), internal_id@),
                ContainerState {
                    start_pattern,
                    updated_at: now,
                    ..old(self).records()[index_of(old(self).records(), internal_id@)]
                },
            ),
    {
        match self.find(internal_id) {
            None => Err(RegistryError::NotFound),
            Some(i) => {
                let ghost before = self.records();
                let mut s = self.take_at(i);
                s.start_pattern = start_pattern;
                s.updated_at = now;
                self.swap_at(i, s);
                assert(self.records() =~= before.update(i as int, s));
                Ok(())
            },
        }
    }

    /// Records a rebind: the new port bindings and the runtime id of the
    /// recreated instance. The install state is kept.
    pub fn update_network(&mut self, internal_id: &str, ports: Vec<PortBinding>, container_id: String, now: u64) -> (r: Result<(), RegistryError>)
        requires
            old(self).wf(),
        ensures
            final(self).wf(),
            !holds(old(self).records(), internal_id@) ==> r == Err::<(), RegistryError>(RegistryError::NotFound)
                && final(self).records() == old(self).records(),
            holds(old(self).records(), internal_id@) ==> r is Ok && final(self).records() == old(self).records().update(
                index_of(old(self).records(), internal_id@),
                ContainerState {
                    ports,
                    container_id: Some(container_id),
                    updated_at: now,
                    ..old(self).records()[index_of(old(self).records(), internal_id@)]
                },
            ),
    {
        match self.find(internal_id) {
            None => Err(RegistryError::NotFound),
            Some(i) => {
                let ghost before = self.records();
                let mut s = self.take_at(i);
                s.ports = ports;
                s.container_id = Some(container_id);
                s.updated_at = now;
                self.swap_at(i, s);
                assert(self.records() =~= before.update(i as int, s));
                Ok(())
            },
        }
    }

    /// Records a live resource update: a memory limit that is given
    /// replaces the stored one; the other stored limits stay.
    pub fn update_limits(&mut self, internal_id: &str, limits: &ResourceLimits, now: u64) -> (r: Result<(), RegistryError>)
        requires
            old(self).wf(),
        ensures
            final(self).wf(),
            !holds(old(self).records(), internal_id@) ==> r == Err::<(), RegistryError>(RegistryError::NotFound)
                && final(self).records() == old(self).records(),
            holds(old(self).records(), internal_id@) ==> {
                let s = old(self).records()[index_of(old(self).records(), internal_id@)];
                &&& r is Ok
                &&& final(self).records() == old(self).records().update(
                    index_of(old(self).records(), internal_id@),
                    ContainerState {
                        limits: ContainerLimits {
                            memory: if limits.memory.is_some() { limits.memory } else { s.limits.memory },
                            ..s.limits
                        },
                        updated_at: now,
                        ..s
                    },
                )
            },
    {
        match self.find(internal_id) {
            None => Err(RegistryError::NotFound),
            Some(i) => {
                let ghost before = self.records();
                let mut s = self.take_at(i);
                if limits.memory.is_some() {
                    s.limits.memory = limits.memory;
                }
                s.updated_at = now;
                self.swap_at(i, s);
                assert(self.records() =~= before.update(i as int, s));
                Ok(())
            },
        }
    }

    /// The internal id of the record whose runtime id is `runtime_id`, if any.
    pub fn internal_id_for_runtime(&self, runtime_id: &str) -> (r: Option<String>)
        ensures
            r.is_none() ==> forall|k: int| 0 <= k < self.records().len() ==> (#[trigger] self.records()[k]).container_id.is_none()
                || self.records()[k].container_id.unwrap()@ != runtime_id@,
            r.is_some() ==> exists|k: int| 0 <= k < self.records().len() && (#[trigger] self.records()[k]).container_id.is_some()
                && self.records()[k].container_id.unwrap()@ == runtime_id@ && self.records()[k].internal_id@ == r.unwrap()@,
    {
        let mut i: usize = 0;
        while i < self.containers.len()
            invariant
                i <= self.containers@.len(),
                forall|k: int| 0 <= k < i ==> (#[trigger] self.containers@[k]).container_id.is_none()
                    || self.containers@[k].container_id.unwrap()@ != runtime_id@,
            decreases self.containers.len() - i,
        {
            if let Some(c) = &self.containers[i].container_id {
                if same_text(c.as_str(), runtime_id) {
                    let id = self.containers[i].internal_id.clone();
                    assert(self.records()[i as int].container_id.unwrap()@ == runtime_id@);
                    return Some(id);
                }
            }
            i = i + 1;
        }
        None
    }

    /// Removes the record and returns it.
    pub fn delete_container(&mut self, internal_id: &str) -> (r: Result<ContainerState, RegistryError>)
        requires
            old(self).wf(),
        ensures
            final(self).wf(),
            !holds(old(self).records(), internal_id@) ==> r == Err::<ContainerState, RegistryError>(
                RegistryError::NotFound,
            ) && final(self).records() == old(self).records(),
            holds(old(self).records(), internal_id@) ==> {
                let i = index_of(old(self).records(), internal_id@);
                &&& r == Ok::<ContainerState, RegistryError>(old(self).records()[i])
                &&& final(self).records() == old(self).records().remove(i)
                &&& !holds(final(self).records(), internal_id@)
            },
    {
        match self.find(internal_id) {
            None => Err(RegistryError::NotFound),
            Some(i) => {
                let ghost before = self.containers@;
                let s = self.containers.remove(i);
                proof {
                    assert forall|a: int, b: int|
                        0 <= a < self.containers@.len() && 0 <= b < self.containers@.len() && a != b
                        implies (#[trigger] self.containers@[a]).internal_id@ != (#[trigger] self.containers@[b]).internal_id@ by {
                        let a2 = if a < i { a } else { a + 1 };
                        let b2 = if b < i { b } else { b + 1 };
                        assert(before[a2] == self.containers@[a]);
                        assert(before[b2] == self.containers@[b]);
                    }
                    assert forall|a: int| 0 <= a < self.containers@.len() implies (#[trigger] self.containers@[a]).wf() by {
                        let a2 = if a < i { a } else { a + 1 };
                        assert(before[a2] == self.containers@[a]);
                    }
                    if holds(self.containers@, internal_id@) {
                        let a = choose|a: int| 0 <= a < self.containers@.len() && (#[trigger] self.containers@[a]).internal_id@ == internal_id@;
                        let a2 = if a < i { a } else { a + 1 };
                        assert(before[a2] == self.containers@[a]);
                    }
                }
                Ok(s)
            },
        }
    }

    /// Health report of the record at time `now`; fails with `NotFound`
    /// when there is no such record.
    pub fn validate_container(&self, internal_id: &str, now: u64) -> (r: Result<(bool, Option<String>), RegistryError>)
        requires
            self.wf(),
        ensures
            self.lookup(internal_id@).is_none() ==> r == Err::<(bool, Option<String>), RegistryError>(RegistryError::NotFound),
            self.lookup(internal_id@).is_some() ==> {
                let report = self.lookup(internal_id@).unwrap().report_at(now);
                &&& r is Ok
                &&& r->Ok_0.0 == report.0
                &&& r->Ok_0.1.is_some() == report.1.is_some()
                &&& r->Ok_0.1.is_some() ==> r->Ok_0.1.unwrap()@ == report.1.unwrap()
            },
    {
        match self.find(internal_id) {
            None => Err(RegistryError::NotFound),
            Some(i) => Ok(self.containers[i].validate(now)),
        }
    }
}

/// Every ready record of a well-formed registry carries a runtime id.
pub proof fn law_ready_has_runtime(m: &ContainerManager, id: Seq<char>)
    requires
        m.wf(),
        m.lookup(id).is_some(),
        m.lookup(id).unwrap().install_state == InstallState::Ready,
    ensures
        m.lookup(id).unwrap().container_id.is_some(),
{
    assert(m.records()[index_of(m.records(), id)].wf());
}

/// Reading a record back right after creating it gives the created record,
/// up to its timestamps: the new record is appended to unique ids, so the
/// lookup finds exactly it.
pub proof fn law_create_then_get(before: Seq<ContainerState>, after: Seq<ContainerState>, created: ContainerState)
    requires
        ids_unique(after),
        after.len() == before.len() + 1,
        after.drop_last() == before,
        created.same_as(&after.last()),
    ensures
        lookup_in(after, created.internal_id@).is_some(),
        lookup_in(after, created.internal_id@).unwrap().same_but_times(&created),
{
    lemma_index_of(after, created.internal_id@, after.len() - 1);
}

/// Marking a record installing and then ready leaves it healthy, whenever its
/// internal id, volume id and startup command are non-empty.
pub proof fn law_reinstall_then_ready_is_healthy(
    v0: Seq<ContainerState>,
    id: Seq<char>,
    cid: String,
    t1: u64,
    t2: u64,
    t3: u64,
)
    requires
        ids_unique(v0),
        holds(v0, id),
        id.len() > 0,
        lookup_in(v0, id).unwrap().volume_id@.len() > 0,
        lookup_in(v0, id).unwrap().startup_command@.len() > 0,
    ensures
        ({
            let v1 = v0.update(index_of(v0, id), reinstalling(v0[index_of(v0, id)], t1));
            let v2 = v1.update(index_of(v1, id), readied(v1[index_of(v1, id)], cid, t2));
            &&& holds(v2, id)
            &&& lookup_in(v2, id).unwrap().report_at(t3) == (true, Option::<Seq<char>>::None)
        }),
{
    let i = index_of(v0, id);
    let v1 = v0.update(i, reinstalling(v0[i], t1));
    assert(v1[i].internal_id@ == id);
    assert(ids_unique(v1)) by {
        assert forall|a: int, b: int| 0 <= a < v1.len() && 0 <= b < v1.len() && a != b implies
            (#[trigger] v1[a]).internal_id@ != (#[trigger] v1[b]).internal_id@ by {
            assert(v0[a].internal_id@ == v1[a].internal_id@);
            assert(v0[b].internal_id@ == v1[b].internal_id@);
        }
    }
    lemma_index_of(v1, id, i);
    let v2 = v1.update(i, readied(v1[i], cid, t2));
    assert(v2[i].internal_id@ == id);
    assert(ids_unique(v2)) by {
        assert forall|a: int, b: int| 0 <= a < v2.len() && 0 <= b < v2.len() && a != b implies
            (#[trigger] v2[a]).internal_id@ != (#[trigger] v2[b]).internal_id@ by {
            assert(v1[a].internal_id@ == v2[a].internal_id@);
            assert(v1[b].internal_id@ == v2[b].internal_id@);
        }
    }
    lemma_index_of(v2, id, i);
    let s = v2[i];
    assert(s.issues_at(t3) =~= Seq::<crate::state::StateIssue>::empty());
}

} // verus!

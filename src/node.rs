//! The daemon's shared state: the registry, the port pool and the
//! firewall, and the operations that touch more than one of them.

use vstd::prelude::*;
use crate::firewall::{chain_of, lines, removal_lines, rules_not_of, upper_of, FirewallManager};
use crate::manager::{holds, index_of, ContainerManager, RegistryError};
use crate::pool::{free_endpoints, lemma_free_endpoints_empty, lemma_take_shrinks, NetworkPool, NetworkPort};
use crate::state::{ContainerState, InstallState, PortBinding};

verus! {

/// Why ports could not be assigned.
#[derive(Debug, Clone, Copy, PartialEq, Eq, Structural)]
pub enum AssignError {
    /// No free port is left in the pool.
    Exhausted,
}

/// Why a container could not be created.
#[derive(Debug, Clone, Copy, PartialEq, Eq, Structural)]
pub enum CreateError {
    /// A record with the internal id exists already.
    Conflict,
    /// The pool could not serve every requested port.
    NoPorts,
}

/// The binding answers the request `(container_port, protocol)`.
pub open spec fn serves(b: PortBinding, req: (u16, String)) -> bool {
    b.container_port == req.0 && b.protocol == req.1
}

/// The binding answers one of `reqs`.
pub open spec fn requested(b: PortBinding, reqs: Seq<(u16, String)>) -> bool {
    exists|j: int| 0 <= j < reqs.len() && serves(b, #[trigger] reqs[j])
}

/// Some in-use record of `pool` is on host port `port`.
pub open spec fn port_held(pool: Seq<NetworkPort>, port: u16) -> bool {
    exists|k: int| 0 <= k < pool.len() && (#[trigger] pool[k]).port == port && pool[k].in_use
}

/// No in-use record of `pool` is on host port `port`.
pub open spec fn port_released(pool: Seq<NetworkPort>, port: u16) -> bool {
    forall|k: int| 0 <= k < pool.len() && (#[trigger] pool[k]).port == port ==> !pool[k].in_use
}

/// Every host port of every container that has not failed is held in the pool.
pub open spec fn ports_backed(regs: Seq<ContainerState>, pool: Seq<NetworkPort>) -> bool {
    forall|i: int, k: int|
        0 <= i < regs.len() && regs[i].install_state != InstallState::Failed && 0 <= k < regs[i].ports@.len()
            ==> port_held(pool, #[trigger] regs[i].ports@[k].host_port)
}

/// No container other than the one at `d` uses a host port number that the
/// one at `d` uses.
pub open spec fn host_ports_unshared(regs: Seq<ContainerState>, d: int) -> bool {
    forall|j: int, k: int, m: int|
        0 <= j < regs.len() && j != d && 0 <= k < regs[j].ports@.len() && 0 <= m < regs[d].ports@.len()
            ==> (#[trigger] regs[j].ports@[k]).host_port != (#[trigger] regs[d].ports@[m]).host_port
}

/// `pool` is `orig` with the records at `idx` taken, one distinct record
/// for each binding of `b`, on its host port; the rest is untouched.
pub open spec fn holders(orig: Seq<NetworkPort>, pool: Seq<NetworkPort>, b: Seq<PortBinding>, idx: Seq<int>) -> bool {
    &&& pool.len() == orig.len()
    &&& idx.len() == b.len()
    &&& forall|k: int| 0 <= k < idx.len() ==> 0 <= #[trigger] idx[k] < orig.len() && !orig[idx[k]].in_use
        && pool[idx[k]] == (NetworkPort { in_use: true, ..orig[idx[k]] }) && b[k].host_port == orig[idx[k]].port
    &&& forall|a: int, c: int| 0 <= a < idx.len() && 0 <= c < idx.len() && a != c ==> idx[a] != idx[c]
    &&& forall|q: int| 0 <= q < orig.len() && !idx.contains(q) ==> #[trigger] pool[q] == orig[q]
}

/// The pool only gained holds: same records, none released.
pub open spec fn holds_kept(before: Seq<NetworkPort>, after: Seq<NetworkPort>) -> bool {
    &&& after.len() == before.len()
    &&& forall|k: int| 0 <= k < before.len() ==> (#[trigger] after[k]).port == before[k].port && after[k].id@ == before[k].id@
        && (before[k].in_use ==> after[k].in_use)
}

/// The record's port is none of the first `n` host ports of `ports`.
pub open spec fn untouched(p: NetworkPort, ports: Seq<PortBinding>, n: int) -> bool {
    forall|m: int| 0 <= m < n ==> p.port != (#[trigger] ports[m]).host_port
}

/// Holds that the pool kept still back every port they backed.
proof fn lemma_backed_kept(regs: Seq<ContainerState>, before: Seq<NetworkPort>, after: Seq<NetworkPort>)
    requires
        ports_backed(regs, before),
        holds_kept(before, after),
    ensures
        ports_backed(regs, after),
{
    assert forall|i: int, k: int|
        0 <= i < regs.len() && regs[i].install_state != InstallState::Failed && 0 <= k < regs[i].ports@.len()
            implies port_held(after, #[trigger] regs[i].ports@[k].host_port) by {
        let x = choose|x: int| 0 <= x < before.len() && (#[trigger] before[x]).port == regs[i].ports@[k].host_port && before[x].in_use;
        assert(after[x].port == before[x].port && after[x].in_use);
    }
}

/// The registry, the port pool and the firewall of one daemon.
pub struct Node {
    pub registry: ContainerManager,
    pub pool: NetworkPool,
    pub firewall: FirewallManager,
}

impl Node {
    /// Each part is well formed.
    pub open spec fn wf(&self) -> bool {
        self.registry.wf() && self.pool.wf() && self.firewall.wf()
    }

    /// An empty daemon state.
    pub fn new() -> (r: Self)
        ensures
            r.wf(),
    {
        Node { registry: ContainerManager::new(), pool: NetworkPool::new(), firewall: FirewallManager::new() }
    }

    /// Takes a pool port for each `(container_port, protocol)` request, in
    /// order, picked at random among those that can be taken; each binding
    /// holds a record of its own. Success is owed when the pool has at least
    /// as many takeable endpoints as there are requests. Otherwise the
    /// ports taken so far are returned, the pool is as before, and
    /// `Exhausted` is reported.
    pub fn assign_ports(&mut self, requests: &Vec<(u16, String)>) -> (r: Result<Vec<PortBinding>, AssignError>)
        requires
            old(self).wf(),
        ensures
            final(self).wf(),
            final(self).registry == old(self).registry,
            final(self).firewall == old(self).firewall,
            holds_kept(old(self).pool.records(), final(self).pool.records()),
            requests@.len() <= free_endpoints(old(self).pool.records()).len() ==> r is Ok,
            r is Err ==> final(self).pool.records() == old(self).pool.records(),
            r is Ok ==> {
                let b = r->Ok_0@;
                &&& b.len() == requests@.len()
                &&& forall|k: int| 0 <= k < b.len() ==> port_held(final(self).pool.records(), #[trigger] b[k].host_port)
                &&& forall|k: int| 0 <= k < b.len() ==> requested(#[trigger] b[k], requests@)
                &&& exists|idx: Seq<int>| holders(old(self).pool.records(), final(self).pool.records(), b, idx)
            },
    {
        let ghost orig = self.pool.records();
        let ghost mut idx: Seq<int> = Seq::empty();
        let mut taken: Vec<String> = Vec::new();
        let mut bindings: Vec<PortBinding> = Vec::new();
        let mut i: usize = 0;
        while i < requests.len()
            invariant
                self.wf(),
                orig == old(self).pool.records(),
                self.registry == old(self).registry,
                self.firewall == old(self).firewall,
                i <= requests@.len(),
                bindings@.len() == i,
                taken@.len() == i,
                holders(orig, self.pool.records(), bindings@, idx),
                forall|m: int| 0 <= m < i ==> (#[trigger] taken@[m])@ == orig[idx[m]].id@,
                forall|k: int| 0 <= k < bindings@.len() ==> requested(#[trigger] bindings@[k], requests@),
                requests@.len() <= free_endpoints(orig).len() ==> requests@.len() - i <= free_endpoints(self.pool.records()).len(),
            decreases requests.len() - i,
        {
            match self.pool.get_random_available() {
                None => {
                    proof {
                        lemma_free_endpoints_empty(self.pool.records());
                    }
                    let mut j: usize = 0;
                    while j < taken.len()
                        invariant
                            self.wf(),
                            orig == old(self).pool.records(),
                            self.registry == old(self).registry,
                            self.firewall == old(self).firewall,
                            j <= taken@.len(),
                            taken@.len() == idx.len(),
                            self.pool.records().len() == orig.len(),
                            forall|m: int| 0 <= m < taken@.len() ==> (#[trigger] taken@[m])@ == orig[idx[m]].id@,
                            forall|k: int| 0 <= k < idx.len() ==> 0 <= #[trigger] idx[k] < orig.len() && !orig[idx[k]].in_use,
                            forall|a: int, c: int| 0 <= a < idx.len() && 0 <= c < idx.len() && a != c ==> idx[a] != idx[c],
                            forall|m: int| 0 <= m < j ==> self.pool.records()[#[trigger] idx[m]] == orig[idx[m]],
                            forall|m: int| j <= m < idx.len() ==> self.pool.records()[#[trigger] idx[m]]
                                == (NetworkPort { in_use: true, ..orig[idx[m]] }),
                            forall|q: int| 0 <= q < orig.len() && !idx.contains(q) ==> #[trigger] self.pool.records()[q] == orig[q],
                        decreases taken.len() - j,
                    {
                        let ghost before = self.pool.records();
                        proof {
                            let x = idx[j as int];
                            assert(before[x].id@ == taken@[j as int]@);
                            assert(crate::pool::has_port(before, taken@[j as int]@));
                            let y = crate::pool::port_index(before, taken@[j as int]@);
                            assert(before[y].id@ == before[x].id@);
                        }
                        let _ = self.pool.return_port_to_pool(taken[j].as_str());
                        proof {
                            let x = idx[j as int];
                            let now_ = self.pool.records();
                            assert(now_[x] == orig[x]);
                            assert forall|m: int| 0 <= m < j + 1 implies self.pool.records()[#[trigger] idx[m]] == orig[idx[m]] by {
                                if m < j {
                                    assert(idx[m] != x);
                                }
                            }
                            assert forall|m: int| j + 1 <= m < idx.len() implies self.pool.records()[#[trigger] idx[m]]
                                == (NetworkPort { in_use: true, ..orig[idx[m]] }) by {
                                assert(idx[m] != x);
                            }
                            assert forall|q: int| 0 <= q < orig.len() && !idx.contains(q) implies #[trigger] self.pool.records()[q] == orig[q] by {
                                assert(q != x);
                            }
                        }
                        j = j + 1;
                    }
                    proof {
                        let now_ = self.pool.records();
                        assert forall|q: int| 0 <= q < orig.len() implies now_[q] == orig[q] by {
                            if idx.contains(q) {
                                let m = choose|m: int| 0 <= m < idx.len() && idx[m] == q;
                                assert(now_[idx[m]] == orig[idx[m]]);
                            }
                        }
                        assert(now_ =~= orig);
                    }
                    return Err(AssignError::Exhausted);
                },
                Some(p) => {
                    let ghost before = self.pool.records();
                    let ghost x = crate::pool::port_index(before, p.id@);
                    proof {
                        let k = choose|k: int| 0 <= k < before.len() && before[k] == p && crate::pool::takeable(p, before);
                        assert(before[k].id@ == p.id@);
                        assert(crate::pool::has_port(before, p.id@));
                        assert(before[x].id@ == p.id@);
                        assert(x == k);
                        assert(!crate::pool::endpoint_held_elsewhere(before, k)) by {
                            if crate::pool::endpoint_held_elsewhere(before, k) {
                                let j = choose|j: int| 0 <= j < before.len() && j != k && (#[trigger] before[j]).in_use
                                    && crate::pool::same_endpoint(before[j], before[k]);
                                assert(before[j].in_use && crate::pool::same_endpoint(before[j], p));
                            }
                        }
                        assert(!idx.contains(x)) by {
                            if idx.contains(x) {
                                let m = choose|m: int| 0 <= m < idx.len() && idx[m] == x;
                                assert(before[idx[m]].in_use);
                            }
                        }
                        assert(before[x] == orig[x]);
                        lemma_take_shrinks(before, x);
                    }
                    match self.pool.mark_in_use(p.id.as_str(), true) {
                        Ok(held) => {
                            let binding = PortBinding {
                                container_port: requests[i].0,
                                host_port: held.port,
                                protocol: requests[i].1.clone(),
                            };
                            let ghost prev = bindings@;
                            let ghost tk = taken@;
                            bindings.push(binding);
                            taken.push(held.id);
                            proof {
                                let now_ = self.pool.records();
                                assert(now_ == before.update(x, NetworkPort { in_use: true, ..before[x] }));
                                let idx2 = idx.push(x);
                                assert forall|k: int| 0 <= k < idx2.len() implies 0 <= #[trigger] idx2[k] < orig.len() && !orig[idx2[k]].in_use
                                    && now_[idx2[k]] == (NetworkPort { in_use: true, ..orig[idx2[k]] })
                                    && bindings@[k].host_port == orig[idx2[k]].port by {
                                    if k < idx.len() {
                                        assert(idx2[k] == idx[k]);
                                        assert(idx[k] != x);
                                        assert(prev[k] == bindings@[k]);
                                    }
                                }
                                assert forall|a: int, c: int| 0 <= a < idx2.len() && 0 <= c < idx2.len() && a != c implies idx2[a] != idx2[c] by {
                                    if a < idx.len() && c == idx.len() {
                                        assert(idx.contains(idx[a]));
                                    }
                                    if c < idx.len() && a == idx.len() {
                                        assert(idx.contains(idx[c]));
                                    }
                                }
                                assert forall|q: int| 0 <= q < orig.len() && !idx2.contains(q) implies #[trigger] now_[q] == orig[q] by {
                                    assert(q != x) by {
                                        if q == x { assert(idx2[idx.len() as int] == x); }
                                    }
                                    if idx.contains(q) {
                                        let m = choose|m: int| 0 <= m < idx.len() && idx[m] == q;
                                        assert(idx2[m] == q);
                                    }
                                }
                                assert forall|m: int| 0 <= m < i + 1 implies (#[trigger] taken@[m])@ == orig[idx2[m]].id@ by {
                                    if m < i {
                                        assert(tk[m] == taken@[m]);
                                    }
                                }
                                assert forall|k: int| 0 <= k < bindings@.len() implies requested(#[trigger] bindings@[k], requests@) by {
                                    if k < prev.len() {
                                        assert(prev[k] == bindings@[k]);
                                    } else {
                                        assert(serves(bindings@[k], requests@[i as int]));
                                    }
                                }
                                idx = idx2;
                            }
                        },
                        Err(_) => {
                            // The port was picked among those that can be taken.
                            proof {
                                assert(false);
                            }
                        },
                    }
                },
            }
            i = i + 1;
        }
        proof {
            let now_ = self.pool.records();
            assert forall|k: int| 0 <= k < orig.len() implies (#[trigger] now_[k]).port == orig[k].port && now_[k].id@ == orig[k].id@
                && (orig[k].in_use ==> now_[k].in_use) by {
                if idx.contains(k) {
                    let m = choose|m: int| 0 <= m < idx.len() && idx[m] == k;
                    assert(now_[idx[m]] == (NetworkPort { in_use: true, ..orig[idx[m]] }));
                }
            }
            assert forall|k: int| 0 <= k < bindings@.len() implies port_held(now_, #[trigger] bindings@[k].host_port) by {
                let x = idx[k];
                assert(now_[x].port == bindings@[k].host_port && now_[x].in_use);
            }
        }
        Ok(bindings)
    }

    /// Deletes the container record, returns each of its host ports to the
    /// pool and drops all of its firewall rules. Returns the record and the
    /// packet-filter commands that remove its rules and chain.
    pub fn delete_container(&mut self, internal_id: &str) -> (r: Result<(ContainerState, Vec<Vec<String>>), RegistryError>)
        requires
            old(self).wf(),
        ensures
            final(self).wf(),
            !holds(old(self).registry.records(), internal_id@) ==> r == Err::<(ContainerState, Vec<Vec<String>>), RegistryError>(
                RegistryError::NotFound,
            ) && final(self).registry.records() == old(self).registry.records()
                && final(self).pool.records() == old(self).pool.records()
                && final(self).firewall.records() == old(self).firewall.records(),
            holds(old(self).registry.records(), internal_id@) ==> {
                let i = index_of(old(self).registry.records(), internal_id@);
                let state = old(self).registry.records()[i];
                &&& r is Ok
                &&& r->Ok_0.0 == state
                &&& final(self).registry.records() == old(self).registry.records().remove(i)
                &&& !holds(final(self).registry.records(), internal_id@)
                &&& forall|k: int| 0 <= k < state.ports@.len() ==> port_released(final(self).pool.records(), #[trigger] state.ports@[k].host_port)
                &&& forall|k: int| 0 <= k < final(self).firewall.records().len() ==> (#[trigger] final(self).firewall.records()[k]).container_id@ != internal_id@
                &&& final(self).firewall.records() == rules_not_of(old(self).firewall.records(), internal_id@)
                &&& ports_backed(old(self).registry.records(), old(self).pool.records())
                    && host_ports_unshared(old(self).registry.records(), i)
                    ==> ports_backed(final(self).registry.records(), final(self).pool.records())
                &&& lines(r->Ok_0.1@) == removal_lines(old(self).firewall.records(), internal_id@) + seq![
                    seq!["-F"@, chain_of(upper_of(internal_id@))],
                    seq!["-X"@, chain_of(upper_of(internal_id@))]
                ]
            },
    {
        let state = match self.registry.delete_container(internal_id) {
            Ok(s) => s,
            Err(e) => return Err(e),
        };
        let ghost reg = self.registry;
        let ghost orig = self.pool.records();
        let mut i: usize = 0;
        while i < state.ports.len()
            invariant
                self.pool.wf(),
                self.pool.records().len() == orig.len(),
                forall|k: int| 0 <= k < orig.len() && untouched(orig[k], state.ports@, i as int)
                    ==> #[trigger] self.pool.records()[k] == orig[k],
                self.registry == reg,
                reg.wf(),
                self.firewall == old(self).firewall,
                self.firewall.wf(),
                i <= state.ports@.len(),
                forall|k: int| 0 <= k < i ==> port_released(self.pool.records(), #[trigger] state.ports@[k].host_port),
            decreases state.ports.len() - i,
        {
            let ghost before = self.pool.records();
            self.pool.release_port_number(state.ports[i].host_port);
            proof {
                assert forall|k: int| 0 <= k < orig.len() && untouched(orig[k], state.ports@, i + 1)
                    implies #[trigger] self.pool.records()[k] == orig[k] by {
                    assert(untouched(orig[k], state.ports@, i as int));
                    assert(orig[k].port != state.ports@[i as int].host_port);
                }
                assert forall|k: int| 0 <= k <= i implies port_released(self.pool.records(), #[trigger] state.ports@[k].host_port) by {
                    assert forall|x: int| 0 <= x < self.pool.records().len() && (#[trigger] self.pool.records()[x]).port == state.ports@[k].host_port
                        implies !self.pool.records()[x].in_use by {
                        assert(self.pool.records()[x] == if before[x].port == state.ports@[i as int].host_port {
                            NetworkPort { in_use: false, ..before[x] }
                        } else {
                            before[x]
                        });
                    }
                }
            }
            i = i + 1;
        }
        let cmds = self.firewall.cleanup_container_rules(internal_id);
        proof {
            let old_regs = old(self).registry.records();
            let d = index_of(old_regs, internal_id@);
            if ports_backed(old_regs, orig) && host_ports_unshared(old_regs, d) {
                let regs = self.registry.records();
                let pool = self.pool.records();
                assert forall|a: int, k: int|
                    0 <= a < regs.len() && regs[a].install_state != InstallState::Failed && 0 <= k < regs[a].ports@.len()
                        implies port_held(pool, #[trigger] regs[a].ports@[k].host_port) by {
                    let a2 = if a < d { a } else { a + 1 };
                    assert(regs[a] == old_regs[a2]);
                    assert(port_held(orig, old_regs[a2].ports@[k].host_port));
                    let x = choose|x: int| 0 <= x < orig.len() && (#[trigger] orig[x]).port == old_regs[a2].ports@[k].host_port && orig[x].in_use;
                    assert(untouched(orig[x], state.ports@, state.ports@.len() as int)) by {
                        assert forall|m: int| 0 <= m < state.ports@.len() implies orig[x].port != (#[trigger] state.ports@[m]).host_port by {
                            assert(old_regs[a2].ports@[k].host_port != old_regs[d].ports@[m].host_port);
                        }
                    }
                    assert(pool[x] == orig[x]);
                }
            }
        }
        Ok((state, cmds))
    }

    /// Creates an installing record for `internal_id` with its start
    /// pattern and a pool port for each `(container_port, protocol)`
    /// request. Fails with `Conflict` when the id is taken and with
    /// `NoPorts` when the pool runs out; either way no record is added.
    pub fn create_container(
        &mut self,
        internal_id: String,
        volume_id: String,
        startup_command: String,
        start_pattern: Option<String>,
        port_requests: &Vec<(u16, String)>,
        now: u64,
    ) -> (r: Result<ContainerState, CreateError>)
        requires
            old(self).wf(),
        ensures
            final(self).wf(),
            holds(old(self).registry.records(), internal_id@) ==> r == Err::<ContainerState, CreateError>(CreateError::Conflict)
                && final(self).registry.records() == old(self).registry.records(),
            !holds(old(self).registry.records(), internal_id@)
                && port_requests@.len() <= free_endpoints(old(self).pool.records()).len() ==> r is Ok,
            r == Err::<ContainerState, CreateError>(CreateError::NoPorts) ==> final(self).registry.records() == old(self).registry.records()
                && final(self).pool.records() == old(self).pool.records(),
            r is Err ==> final(self).pool.records() == old(self).pool.records(),
            r is Ok ==> {
                let s = r->Ok_0;
                &&& !holds(old(self).registry.records(), internal_id@)
                &&& final(self).registry.records().len() == old(self).registry.records().len() + 1
                &&& final(self).registry.records().drop_last() == old(self).registry.records()
                &&& s.same_as(&final(self).registry.records().last())
                &&& s.internal_id@ == internal_id@
                &&& s.volume_id@ == volume_id@
                &&& s.startup_command@ == startup_command@
                &&& s.start_pattern == start_pattern
                &&& s.install_state == InstallState::Installing
                &&& s.container_id.is_none()
                &&& s.ports@.len() == port_requests@.len()
                &&& forall|k: int| 0 <= k < s.ports@.len() ==> port_held(final(self).pool.records(), #[trigger] s.ports@[k].host_port)
                &&& forall|k: int| 0 <= k < s.ports@.len() ==> requested(#[trigger] s.ports@[k], port_requests@)
                &&& exists|idx: Seq<int>| holders(old(self).pool.records(), final(self).pool.records(), s.ports@, idx)
            },
            ports_backed(old(self).registry.records(), old(self).pool.records())
                ==> ports_backed(final(self).registry.records(), final(self).pool.records()),
    {
        if self.registry.get_container(internal_id.as_str()).is_some() {
            return Err(CreateError::Conflict);
        }
        let bindings = match self.assign_ports(port_requests) {
            Ok(b) => b,
            Err(_) => {
                proof {
                    if ports_backed(old(self).registry.records(), old(self).pool.records()) {
                        lemma_backed_kept(old(self).registry.records(), old(self).pool.records(), self.pool.records());
                    }
                }
                return Err(CreateError::NoPorts);
            },
        };
        let mut state = ContainerState::new(internal_id, volume_id, startup_command, now);
        state.start_pattern = start_pattern;
        state.ports = bindings;
        let copy = state.clone();
        let ghost before = self.registry.records();
        let ghost id = state.internal_id@;
        let written = self.registry.update_container(state, now);
        proof {
            assert(written is Ok);
            assert(!holds(before, id));
            assert(self.registry.records().drop_last() =~= before);
            if ports_backed(old(self).registry.records(), old(self).pool.records()) {
                lemma_backed_kept(before, old(self).pool.records(), self.pool.records());
                let regs = self.registry.records();
                let n = before.len() as int;
                assert forall|i: int, k: int|
                    0 <= i < regs.len() && regs[i].install_state != InstallState::Failed && 0 <= k < regs[i].ports@.len()
                        implies port_held(self.pool.records(), #[trigger] regs[i].ports@[k].host_port) by {
                    if i < n {
                        assert(regs[i] == before[i]);
                    } else {
                        assert(regs[i].ports@ == copy.ports@);
                        assert(port_held(self.pool.records(), copy.ports@[k].host_port));
                    }
                }
            }
        }
        Ok(copy)
    }
}

} // verus!

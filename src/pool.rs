//! The host port pool: a finite set of (ip, port, protocol) records, each
//! free or held by one container.

use vstd::prelude::*;
use crate::text::same_text;
use rand::seq::SliceRandom;

verus! {

broadcast use vstd::seq_lib::group_filter_ensures;

/// The largest number of ports one bulk request may add.
pub const MAX_BULK_PORTS: usize = 50;

/// Why a pool operation did not complete.
#[derive(Debug, Clone, Copy, PartialEq, Eq, Structural)]
pub enum PoolError {
    /// No record has the given id.
    NotFound,
    /// The port is already held, or the id is already taken.
    Conflict,
    /// A bulk request holds more than `MAX_BULK_PORTS` entries.
    TooMany,
}

/// One host port of the pool.
#[derive(Debug)]
pub struct NetworkPort {
    pub id: String,
    pub ip: String,
    pub port: u16,
    /// "tcp" or "udp".
    pub protocol: String,
    pub in_use: bool,
    pub created_at: u64,
}

impl Clone for NetworkPort {
    fn clone(&self) -> (r: Self)
        ensures
            r == *self,
    {
        NetworkPort {
            id: self.id.clone(),
            ip: self.ip.clone(),
            port: self.port,
            protocol: self.protocol.clone(),
            in_use: self.in_use,
            created_at: self.created_at,
        }
    }
}

/// The protocol used when a request names none.
pub fn default_protocol() -> (r: String)
    ensures
        r@ == "tcp"@,
{
    String::from_str("tcp")
}

/// The two records name the same host ip, port and protocol.
pub open spec fn same_endpoint(a: NetworkPort, b: NetworkPort) -> bool {
    a.ip@ == b.ip@ && a.port == b.port && a.protocol@ == b.protocol@
}

/// No two records share an id.
pub open spec fn port_ids_unique(v: Seq<NetworkPort>) -> bool {
    forall|i: int, j: int| 0 <= i < v.len() && 0 <= j < v.len() && i != j ==> (#[trigger] v[i]).id@ != (#[trigger] v[j]).id@
}

/// At most one in-use record exists for each (ip, port, protocol).
pub open spec fn exclusive_in_use(v: Seq<NetworkPort>) -> bool {
    forall|i: int, j: int|
        0 <= i < v.len() && 0 <= j < v.len() && i != j && (#[trigger] v[i]).in_use && (#[trigger] v[j]).in_use
            ==> !same_endpoint(v[i], v[j])
}

/// Some record of `v` has id `id`.
pub open spec fn has_port(v: Seq<NetworkPort>, id: Seq<char>) -> bool {
    exists|i: int| 0 <= i < v.len() && (#[trigger] v[i]).id@ == id
}

/// Position of the record with id `id`.
pub open spec fn port_index(v: Seq<NetworkPort>, id: Seq<char>) -> int {
    choose|i: int| 0 <= i < v.len() && (#[trigger] v[i]).id@ == id
}

/// The record is free.
pub open spec fn is_free(p: NetworkPort) -> bool {
    !p.in_use
}

/// The record was made from the entry `(ip, port, protocol)`.
pub open spec fn built_from(p: NetworkPort, e: (String, u16, String)) -> bool {
    p.ip == e.0 && p.port == e.1 && p.protocol == e.2
}

/// The record was made from one of `entries`.
pub open spec fn from_some_entry(p: NetworkPort, entries: Seq<(String, u16, String)>) -> bool {
    exists|j: int| 0 <= j < entries.len() && built_from(p, #[trigger] entries[j])
}

/// The record is free and no in-use record of `v` holds its endpoint.
pub open spec fn takeable(p: NetworkPort, v: Seq<NetworkPort>) -> bool {
    !p.in_use && !exists|j: int| 0 <= j < v.len() && (#[trigger] v[j]).in_use && same_endpoint(v[j], p)
}

/// The records of `v` that can be taken, in order.
pub open spec fn takeable_ports(v: Seq<NetworkPort>) -> Seq<NetworkPort> {
    v.filter(|p: NetworkPort| takeable(p, v))
}

/// The (ip, port, protocol) a record stands for.
pub open spec fn endpoint_of(p: NetworkPort) -> (Seq<char>, u16, Seq<char>) {
    (p.ip@, p.port, p.protocol@)
}

/// The distinct endpoints that can be taken in `v`.
pub open spec fn free_endpoints(v: Seq<NetworkPort>) -> Set<(Seq<char>, u16, Seq<char>)> {
    Set::new(|e: (Seq<char>, u16, Seq<char>)| exists|i: int| 0 <= i < v.len() && takeable(v[i], v) && #[trigger] endpoint_of(v[i]) == e)
}

/// There are finitely many takeable endpoints.
pub proof fn lemma_free_endpoints_finite(v: Seq<NetworkPort>)
    ensures
        free_endpoints(v).finite(),
{
    let all = v.map_values(|p: NetworkPort| endpoint_of(p)).to_set();
    assert(all.finite()) by {
        vstd::seq_lib::seq_to_set_is_finite(v.map_values(|p: NetworkPort| endpoint_of(p)));
    }
    assert(free_endpoints(v).subset_of(all)) by {
        assert forall|e| free_endpoints(v).contains(e) implies all.contains(e) by {
            let i = choose|i: int| 0 <= i < v.len() && takeable(v[i], v) && #[trigger] endpoint_of(v[i]) == e;
            assert(v.map_values(|p: NetworkPort| endpoint_of(p))[i] == e);
        }
    }
    vstd::set_lib::lemma_set_subset_finite(all, free_endpoints(v));
}

/// Without takeable endpoints there is no takeable record.
pub proof fn lemma_free_endpoints_empty(v: Seq<NetworkPort>)
    requires
        forall|i: int| 0 <= i < v.len() ==> !takeable(#[trigger] v[i], v),
    ensures
        free_endpoints(v).len() == 0,
{
    assert(free_endpoints(v) =~= Set::empty());
}

/// Taking the takeable record at `x` removes exactly its endpoint from the
/// takeable ones.
pub proof fn lemma_take_shrinks(v: Seq<NetworkPort>, x: int)
    requires
        0 <= x < v.len(),
        takeable(v[x], v),
    ensures
        free_endpoints(v.update(x, NetworkPort { in_use: true, ..v[x] })) == free_endpoints(v).remove(endpoint_of(v[x])),
        free_endpoints(v.update(x, NetworkPort { in_use: true, ..v[x] })).len() + 1 == free_endpoints(v).len(),
{
    let v2 = v.update(x, NetworkPort { in_use: true, ..v[x] });
    let ex = endpoint_of(v[x]);
    assert forall|e| free_endpoints(v2).contains(e) <==> free_endpoints(v).remove(ex).contains(e) by {
        if free_endpoints(v2).contains(e) {
            let i = choose|i: int| 0 <= i < v2.len() && takeable(v2[i], v2) && #[trigger] endpoint_of(v2[i]) == e;
            assert(i != x);
            assert(v2[i] == v[i]);
            assert(e != ex) by {
                if e == ex {
                    assert(v2[x].in_use && same_endpoint(v2[x], v2[i]));
                }
            }
            assert(takeable(v[i], v)) by {
                if exists|j: int| 0 <= j < v.len() && (#[trigger] v[j]).in_use && same_endpoint(v[j], v[i]) {
                    let j = choose|j: int| 0 <= j < v.len() && (#[trigger] v[j]).in_use && same_endpoint(v[j], v[i]);
                    if j != x {
                        assert(v2[j] == v[j]);
                    }
                }
            }
        }
        if free_endpoints(v).remove(ex).contains(e) {
            let i = choose|i: int| 0 <= i < v.len() && takeable(v[i], v) && #[trigger] endpoint_of(v[i]) == e;
            assert(i != x);
            assert(v2[i] == v[i]);
            assert(takeable(v2[i], v2)) by {
                if exists|j: int| 0 <= j < v2.len() && (#[trigger] v2[j]).in_use && same_endpoint(v2[j], v2[i]) {
                    let j = choose|j: int| 0 <= j < v2.len() && (#[trigger] v2[j]).in_use && same_endpoint(v2[j], v2[i]);
                    if j != x {
                        assert(v2[j] == v[j]);
                    } else {
                        assert(endpoint_of(v2[x]) == ex);
                    }
                }
            }
            assert(endpoint_of(v2[i]) == e);
        }
    }
    assert(free_endpoints(v2) =~= free_endpoints(v).remove(ex));
    lemma_free_endpoints_finite(v);
    assert(free_endpoints(v).contains(ex));
    vstd::set::axiom_set_remove_len(free_endpoints(v), ex);
}

/// The free record made from entry `e` under `id` at time `now`.
pub open spec fn entry_port(id: String, e: (String, u16, String), now: u64) -> NetworkPort {
    NetworkPort { id, ip: e.0, port: e.1, protocol: e.2, in_use: false, created_at: now }
}

/// The records that adding `entries` under `ids`, in order, to a pool
/// holding `v` adds: each entry unless its id is taken by then.
pub open spec fn bulk_result(v: Seq<NetworkPort>, entries: Seq<(String, u16, String)>, ids: Seq<String>, now: u64) -> Seq<NetworkPort>
    decreases entries.len(),
{
    if entries.len() == 0 || ids.len() != entries.len() {
        Seq::empty()
    } else {
        let prev = bulk_result(v, entries.drop_last(), ids.drop_last(), now);
        if has_port(v + prev, ids.last()@) {
            prev
        } else {
            prev.push(entry_port(ids.last(), entries.last(), now))
        }
    }
}

/// The free records of `v`, in order.
pub open spec fn free_ports(v: Seq<NetworkPort>) -> Seq<NetworkPort> {
    v.filter(|p: NetworkPort| is_free(p))
}

/// Another record than the one at `i` holds the endpoint of `v[i]`.
pub open spec fn endpoint_held_elsewhere(v: Seq<NetworkPort>, i: int) -> bool {
    exists|j: int| 0 <= j < v.len() && j != i && (#[trigger] v[j]).in_use && same_endpoint(v[j], v[i])
}

/// Whether marking `v[i]` in use (`true`) or free (`false`) is refused:
/// a port that is held, or whose endpoint another record holds, cannot be taken.
pub open spec fn take_refused(v: Seq<NetworkPort>, i: int, in_use: bool) -> bool {
    in_use && (v[i].in_use || endpoint_held_elsewhere(v, i))
}

/// Relies on `rand::seq::SliceRandom::choose` with the thread-local
/// generator: `None` for an empty slice, else one of its elements.
#[verifier::external_body]
fn choose_port(available: &[NetworkPort]) -> (r: Option<NetworkPort>)
    ensures
        r.is_none() == (available@.len() == 0),
        r.is_some() ==> exists|i: int| 0 <= i < available@.len() && available@[i] == r.unwrap(),
{
    let mut rng = rand::thread_rng();
    available.choose(&mut rng).cloned()
}

/// Relies on `uuid::Uuid::new_v4` in hyphenated form: a random identifier.
#[verifier::external_body]
pub(crate) fn fresh_id() -> (r: String) {
    uuid::Uuid::new_v4().to_string()
}

/// The pool of host ports.
pub struct NetworkPool {
    ports: Vec<NetworkPort>,
}

impl NetworkPool {
    /// The records, in insertion order.
    pub closed spec fn records(&self) -> Seq<NetworkPort> {
        self.ports@
    }

    /// Ids are unique and no endpoint is held twice.
    pub open spec fn wf(&self) -> bool {
        port_ids_unique(self.records()) && exclusive_in_use(self.records())
    }

    /// The record with id `id`, if any.
    pub open spec fn lookup(&self, id: Seq<char>) -> Option<NetworkPort> {
        if has_port(self.records(), id) {
            Some(self.records()[port_index(self.records(), id)])
        } else {
            None
        }
    }

    /// An empty pool.
    pub fn new() -> (r: Self)
        ensures
            r.wf(),
            r.records().len() == 0,
    {
        NetworkPool { ports: Vec::new() }
    }

    /// Position of the record with id `id`.
    fn find(&self, id: &str) -> (r: Option<usize>)
        requires
            self.wf(),
        ensures
            r.is_none() == !has_port(self.records(), id@),
            r.is_some() ==> r.unwrap() < self.records().len() && r.unwrap() == port_index(self.records(), id@),
    {
        let mut i: usize = 0;
        while i < self.ports.len()
            invariant
                i <= self.ports@.len(),
                self.wf(),
                forall|k: int| 0 <= k < i ==> (#[trigger] self.ports@[k]).id@ != id@,
            decreases self.ports.len() - i,
        {
            if same_text(self.ports[i].id.as_str(), id) {
                proof {
                    let j = port_index(self.records(), id@);
                    assert(self.records()[i as int].id@ == id@);
                    assert(has_port(self.records(), id@));
                    assert(self.records()[j].id@ == id@);
                }
                return Some(i);
            }
            i = i + 1;
        }
        None
    }

    /// Adds a free record for `ip:port/protocol` under `id`. Fails with
    /// `Conflict` exactly when the id is taken.
    pub fn add_port_with_id(&mut self, id: String, ip: String, port: u16, protocol: String, now: u64) -> (r: Result<NetworkPort, PoolError>)
        requires
            old(self).wf(),
        ensures
            final(self).wf(),
            has_port(old(self).records(), id@) ==> r == Err::<NetworkPort, PoolError>(PoolError::Conflict)
                && final(self).records() == old(self).records(),
            !has_port(old(self).records(), id@) ==> {
                let p = NetworkPort { id, ip, port, protocol, in_use: false, created_at: now };
                &&& r == Ok::<NetworkPort, PoolError>(p)
                &&& final(self).records() == old(self).records().push(p)
            },
    {
        if self.find(id.as_str()).is_some() {
            return Err(PoolError::Conflict);
        }
        let record = NetworkPort { id, ip, port, protocol, in_use: false, created_at: now };
        let copy = record.clone();
        let ghost before = self.ports@;
        self.ports.push(record);
        proof {
            assert forall|a: int, b: int| 0 <= a < self.ports@.len() && 0 <= b < self.ports@.len() && a != b
                implies (#[trigger] self.ports@[a]).id@ != (#[trigger] self.ports@[b]).id@ by {
                if a < before.len() { assert(before[a] == self.ports@[a]); }
                if b < before.len() { assert(before[b] == self.ports@[b]); }
            }
            assert forall|a: int, b: int|
                0 <= a < self.ports@.len() && 0 <= b < self.ports@.len() && a != b && (#[trigger] self.ports@[a]).in_use
                    && (#[trigger] self.ports@[b]).in_use implies !same_endpoint(self.ports@[a], self.ports@[b]) by {
                assert(before[a] == self.ports@[a]);
                assert(before[b] == self.ports@[b]);
            }
        }
        Ok(copy)
    }

    /// Adds a free record for `ip:port/protocol` (protocol "tcp" when none
    /// is given) under a fresh random id. Succeeds on an empty pool; fails
    /// with `Conflict` only when the drawn id is already taken.
    pub fn add_port(&mut self, ip: String, port: u16, protocol: Option<String>, now: u64) -> (r: Result<NetworkPort, PoolError>)
        requires
            old(self).wf(),
        ensures
            final(self).wf(),
            old(self).records().len() == 0 ==> r is Ok,
            r is Err ==> r == Err::<NetworkPort, PoolError>(PoolError::Conflict) && final(self).records() == old(self).records(),
            r is Ok ==> {
                let p = r->Ok_0;
                &&& !has_port(old(self).records(), p.id@)
                &&& final(self).records() == old(self).records().push(p)
                &&& p.ip == ip
                &&& p.port == port
                &&& (protocol.is_some() ==> p.protocol == protocol.unwrap())
                &&& (protocol.is_none() ==> p.protocol@ == "tcp"@)
                &&& !p.in_use
                &&& p.created_at == now
            },
    {
        let id = fresh_id();
        let protocol = match protocol {
            Some(p) => p,
            None => default_protocol(),
        };
        let ghost id_v = id@;
        let r = self.add_port_with_id(id, ip, port, protocol, now);
        proof {
            if r is Ok {
                assert(r->Ok_0.id@ == id_v);
            }
        }
        r
    }

    /// Arguments that open (`open`) or close the port in the host packet
    /// filter's INPUT chain.
    pub fn filter_args(p: &NetworkPort, open: bool) -> (r: Vec<String>)
        ensures
            crate::text::texts(r@) == seq![
                if open { "-A"@ } else { "-D"@ }, "INPUT"@, "-p"@, p.protocol@, "-d"@, p.ip@, "--dport"@,
                crate::text::decimal(p.port as nat), "-j"@, "ACCEPT"@
            ],
    {
        let mut r: Vec<String> = Vec::new();
        r.push(if open { String::from_str("-A") } else { String::from_str("-D") });
        r.push(String::from_str("INPUT"));
        r.push(String::from_str("-p"));
        r.push(p.protocol.clone());
        r.push(String::from_str("-d"));
        r.push(p.ip.clone());
        r.push(String::from_str("--dport"));
        r.push(crate::text::decimal_string(p.port as u64));
        r.push(String::from_str("-j"));
        r.push(String::from_str("ACCEPT"));
        assert(crate::text::texts(r@) =~= seq![
            if open { "-A"@ } else { "-D"@ }, "INPUT"@, "-p"@, p.protocol@, "-d"@, p.ip@, "--dport"@,
            crate::text::decimal(p.port as nat), "-j"@, "ACCEPT"@
        ]);
        r
    }

    /// A copy of the record with id `id`, if any.
    pub fn get_port(&self, id: &str) -> (r: Option<NetworkPort>)
        requires
            self.wf(),
        ensures
            r == self.lookup(id@),
    {
        match self.find(id) {
            Some(i) => Some(self.ports[i].clone()),
            None => None,
        }
    }

    /// Copies of all records, in insertion order.
    pub fn get_all_ports(&self) -> (r: Vec<NetworkPort>)
        ensures
            r@ == self.records(),
    {
        let mut r: Vec<NetworkPort> = Vec::new();
        let mut i: usize = 0;
        while i < self.ports.len()
            invariant
                i <= self.ports@.len(),
                r@ == self.ports@.subrange(0, i as int),
            decreases self.ports.len() - i,
        {
            r.push(self.ports[i].clone());
            assert(r@ =~= self.ports@.subrange(0, i + 1));
            i = i + 1;
        }
        assert(self.ports@.subrange(0, self.ports@.len() as int) =~= self.ports@);
        r
    }

    /// Copies of the free records, in insertion order.
    pub fn get_available_ports(&self) -> (r: Vec<NetworkPort>)
        ensures
            r@ == free_ports(self.records()),
    {
        let mut r: Vec<NetworkPort> = Vec::new();
        let mut i: usize = 0;
        while i < self.ports.len()
            invariant
                i <= self.ports@.len(),
                r@ == free_ports(self.ports@.subrange(0, i as int)),
            decreases self.ports.len() - i,
        {
            proof {
                reveal(Seq::filter);
                assert(self.ports@.subrange(0, i + 1).drop_last() =~= self.ports@.subrange(0, i as int));
            }
            if !self.ports[i].in_use {
                r.push(self.ports[i].clone());
            }
            i = i + 1;
        }
        assert(self.ports@.subrange(0, self.ports@.len() as int) =~= self.ports@);
        r
    }

    /// Whether no in-use record holds the endpoint of `p`.
    fn endpoint_free(&self, p: &NetworkPort) -> (r: bool)
        ensures
            r == !exists|j: int| 0 <= j < self.records().len() && (#[trigger] self.records()[j]).in_use && same_endpoint(self.records()[j], *p),
    {
        let mut j: usize = 0;
        while j < self.ports.len()
            invariant
                j <= self.ports@.len(),
                forall|k: int| 0 <= k < j ==> !((#[trigger] self.ports@[k]).in_use && same_endpoint(self.ports@[k], *p)),
            decreases self.ports.len() - j,
        {
            if self.ports[j].in_use && same_text(self.ports[j].ip.as_str(), p.ip.as_str()) && self.ports[j].port == p.port
                && same_text(self.ports[j].protocol.as_str(), p.protocol.as_str()) {
                assert(self.records()[j as int].in_use && same_endpoint(self.records()[j as int], *p));
                return false;
            }
            j = j + 1;
        }
        true
    }

    /// Copies of the records that can be taken, in order.
    pub fn get_takeable_ports(&self) -> (r: Vec<NetworkPort>)
        ensures
            r@ == takeable_ports(self.records()),
    {
        let ghost v = self.records();
        let mut r: Vec<NetworkPort> = Vec::new();
        let mut i: usize = 0;
        while i < self.ports.len()
            invariant
                v == self.records(),
                i <= self.ports@.len(),
                r@ == self.ports@.subrange(0, i as int).filter(|p: NetworkPort| takeable(p, v)),
            decreases self.ports.len() - i,
        {
            proof {
                reveal(Seq::filter);
                assert(self.ports@.subrange(0, i + 1).drop_last() =~= self.ports@.subrange(0, i as int));
            }
            if !self.ports[i].in_use && self.endpoint_free(&self.ports[i]) {
                r.push(self.ports[i].clone());
            }
            i = i + 1;
        }
        assert(self.ports@.subrange(0, self.ports@.len() as int) =~= self.ports@);
        r
    }

    /// A record that can be taken, picked at random; `None` when no record
    /// is free with its endpoint unheld.
    pub fn get_random_available(&self) -> (r: Option<NetworkPort>)
        ensures
            r.is_none() == (forall|i: int| 0 <= i < self.records().len() ==> !takeable(#[trigger] self.records()[i], self.records())),
            r.is_some() ==> exists|i: int| 0 <= i < self.records().len() && self.records()[i] == r.unwrap() && takeable(r.unwrap(), self.records()),
    {
        let available = self.get_takeable_ports();
        let r = choose_port(available.as_slice());
        proof {
            let v = self.records();
            let f = takeable_ports(v);
            if r.is_some() {
                let k = choose|k: int| 0 <= k < available@.len() && available@[k] == r.unwrap();
                assert(takeable(f[k], v));
                assert(f.contains(r.unwrap()));
                v.lemma_filter_contains_rev(|p: NetworkPort| takeable(p, v), r.unwrap());
            } else {
                assert forall|i: int| 0 <= i < v.len() implies !takeable(#[trigger] v[i], v) by {
                    if takeable(v[i], v) {
                        v.lemma_filter_contains(|p: NetworkPort| takeable(p, v), i);
                    }
                }
            }
            if forall|i: int| 0 <= i < v.len() ==> !takeable(#[trigger] v[i], v) {
                if f.len() > 0 {
                    assert(takeable(f[0], v));
                    assert(f.contains(f[0]));
                    v.lemma_filter_contains_rev(|p: NetworkPort| takeable(p, v), f[0]);
                }
            }
        }
        r
    }

    /// Whether a record other than the one at `i` holds the endpoint of the one at `i`.
    fn held_elsewhere(&self, i: usize) -> (r: bool)
        requires
            i < self.records().len(),
        ensures
            r == endpoint_held_elsewhere(self.records(), i as int),
    {
        let mut j: usize = 0;
        while j < self.ports.len()
            invariant
                i < self.ports@.len(),
                j <= self.ports@.len(),
                forall|k: int| 0 <= k < j && k != i ==> !((#[trigger] self.ports@[k]).in_use && same_endpoint(self.ports@[k], self.ports@[i as int])),
            decreases self.ports.len() - j,
        {
            if j != i && self.ports[j].in_use && same_text(self.ports[j].ip.as_str(), self.ports[i].ip.as_str())
                && self.ports[j].port == self.ports[i].port
                && same_text(self.ports[j].protocol.as_str(), self.ports[i].protocol.as_str()) {
                return true;
            }
            j = j + 1;
        }
        false
    }

    /// Marks the record in use or free and returns a copy of it. Taking a
    /// port that is held, or whose endpoint another record holds, fails with
    /// `Conflict`; this is where exclusive ownership is decided.
    pub fn mark_in_use(&mut self, id: &str, in_use: bool) -> (r: Result<NetworkPort, PoolError>)
        requires
            old(self).wf(),
        ensures
            final(self).wf(),
            !has_port(old(self).records(), id@) ==> r == Err::<NetworkPort, PoolError>(PoolError::NotFound)
                && final(self).records() == old(self).records(),
            has_port(old(self).records(), id@) ==> {
                let i = port_index(old(self).records(), id@);
                &&& take_refused(old(self).records(), i, in_use) ==> r == Err::<NetworkPort, PoolError>(PoolError::Conflict)
                    && final(self).records() == old(self).records()
                &&& !take_refused(old(self).records(), i, in_use) ==> {
                    let p = NetworkPort { in_use, ..old(self).records()[i] };
                    r == Ok::<NetworkPort, PoolError>(p) && final(self).records() == old(self).records().update(i, p)
                }
            },
    {
        let i = match self.find(id) {
            Some(i) => i,
            None => return Err(PoolError::NotFound),
        };
        if in_use && (self.ports[i].in_use || self.held_elsewhere(i)) {
            return Err(PoolError::Conflict);
        }
        let ghost before = self.ports@;
        let mut p = self.ports[i].clone();
        p.in_use = in_use;
        let copy = p.clone();
        self.ports.set(i, p);
        proof {
            assert forall|a: int, b: int| 0 <= a < self.ports@.len() && 0 <= b < self.ports@.len() && a != b
                implies (#[trigger] self.ports@[a]).id@ != (#[trigger] self.ports@[b]).id@ by {
                assert(before[a].id@ == self.ports@[a].id@);
                assert(before[b].id@ == self.ports@[b].id@);
            }
            assert forall|a: int, b: int|
                0 <= a < self.ports@.len() && 0 <= b < self.ports@.len() && a != b && (#[trigger] self.ports@[a]).in_use
                    && (#[trigger] self.ports@[b]).in_use implies !same_endpoint(self.ports@[a], self.ports@[b]) by {
                if a == i {
                    assert(before[b] == self.ports@[b]);
                    assert(!(before[b].in_use && same_endpoint(before[b], before[i as int])));
                } else if b == i {
                    assert(before[a] == self.ports@[a]);
                    assert(!(before[a].in_use && same_endpoint(before[a], before[i as int])));
                } else {
                    assert(before[a] == self.ports@[a]);
                    assert(before[b] == self.ports@[b]);
                }
            }
        }
        Ok(copy)
    }

    /// Frees the record.
    pub fn return_port_to_pool(&mut self, id: &str) -> (r: Result<(), PoolError>)
        requires
            old(self).wf(),
        ensures
            final(self).wf(),
            !has_port(old(self).records(), id@) ==> r == Err::<(), PoolError>(PoolError::NotFound)
                && final(self).records() == old(self).records(),
            has_port(old(self).records(), id@) ==> {
                let i = port_index(old(self).records(), id@);
                &&& r is Ok
                &&& final(self).records() == old(self).records().update(i, NetworkPort { in_use: false, ..old(self).records()[i] })
            },
    {
        match self.mark_in_use(id, false) {
            Ok(_) => Ok(()),
            Err(e) => Err(e),
        }
    }

    /// Removes the record and returns it.
    pub fn delete_port(&mut self, id: &str) -> (r: Result<NetworkPort, PoolError>)
        requires
            old(self).wf(),
        ensures
            final(self).wf(),
            !has_port(old(self).records(), id@) ==> r == Err::<NetworkPort, PoolError>(PoolError::NotFound)
                && final(self).records() == old(self).records(),
            has_port(old(self).records(), id@) ==> {
                let i = port_index(old(self).records(), id@);
                &&& r == Ok::<NetworkPort, PoolError>(old(self).records()[i])
                &&& final(self).records() == old(self).records().remove(i)
                &&& !has_port(final(self).records(), id@)
            },
    {
        let i = match self.find(id) {
            Some(i) => i,
            None => return Err(PoolError::NotFound),
        };
        let ghost before = self.ports@;
        let p = self.ports.remove(i);
        proof {
            assert forall|a: int, b: int| 0 <= a < self.ports@.len() && 0 <= b < self.ports@.len() && a != b
                implies (#[trigger] self.ports@[a]).id@ != (#[trigger] self.ports@[b]).id@ by {
                let a2 = if a < i { a } else { a + 1 };
                let b2 = if b < i { b } else { b + 1 };
                assert(before[a2] == self.ports@[a]);
                assert(before[b2] == self.ports@[b]);
            }
            assert forall|a: int, b: int|
                0 <= a < self.ports@.len() && 0 <= b < self.ports@.len() && a != b && (#[trigger] self.ports@[a]).in_use
                    && (#[trigger] self.ports@[b]).in_use implies !same_endpoint(self.ports@[a], self.ports@[b]) by {
                let a2 = if a < i { a } else { a + 1 };
                let b2 = if b < i { b } else { b + 1 };
                assert(before[a2] == self.ports@[a]);
                assert(before[b2] == self.ports@[b]);
            }
            if has_port(self.ports@, id@) {
                let a = choose|a: int| 0 <= a < self.ports@.len() && (#[trigger] self.ports@[a]).id@ == id@;
                let a2 = if a < i { a } else { a + 1 };
                assert(before[a2] == self.ports@[a]);
            }
        }
        Ok(p)
    }

    /// Deletes each listed record that exists; returns the ids deleted, in
    /// request order.
    pub fn bulk_delete(&mut self, ids: Vec<String>) -> (r: Vec<String>)
        requires
            old(self).wf(),
        ensures
            final(self).wf(),
            forall|k: int| 0 <= k < ids@.len() ==> !has_port(final(self).records(), #[trigger] ids@[k]@),
            forall|k: int| 0 <= k < r@.len() ==> has_port(old(self).records(), #[trigger] r@[k]@),
            forall|k: int| 0 <= k < old(self).records().len() && has_port(final(self).records(), #[trigger] old(self).records()[k].id@)
                ==> final(self).records().contains(old(self).records()[k]),
            forall|k: int| 0 <= k < final(self).records().len() ==> old(self).records().contains(#[trigger] final(self).records()[k]),
    {
        let mut deleted: Vec<String> = Vec::new();
        let mut i: usize = 0;
        while i < ids.len()
            invariant
                self.wf(),
                i <= ids@.len(),
                forall|k: int| 0 <= k < i ==> !has_port(self.records(), #[trigger] ids@[k]@),
                forall|k: int| 0 <= k < deleted@.len() ==> has_port(old(self).records(), #[trigger] deleted@[k]@),
                forall|k: int| 0 <= k < old(self).records().len() && has_port(self.records(), #[trigger] old(self).records()[k].id@)
                    ==> self.records().contains(old(self).records()[k]),
                forall|k: int| 0 <= k < self.records().len() ==> old(self).records().contains(#[trigger] self.records()[k]),
            decreases ids.len() - i,
        {
            let ghost before = self.records();
            match self.delete_port(ids[i].as_str()) {
                Ok(p) => {
                    proof {
                        let j = port_index(before, ids@[i as int]@);
                        assert(old(self).records().contains(before[j]));
                        assert forall|k: int| 0 <= k < self.records().len() implies old(self).records().contains(#[trigger] self.records()[k]) by {
                            let k2 = if k < j { k } else { k + 1 };
                            assert(before[k2] == self.records()[k]);
                        }
                        assert forall|k: int| 0 <= k < old(self).records().len() && has_port(self.records(), #[trigger] old(self).records()[k].id@)
                            implies self.records().contains(old(self).records()[k]) by {
                            let x = choose|x: int| 0 <= x < self.records().len() && (#[trigger] self.records()[x]).id@ == old(self).records()[k].id@;
                            let x2 = if x < j { x } else { x + 1 };
                            assert(before[x2] == self.records()[x]);
                            assert(has_port(before, old(self).records()[k].id@));
                            let y = choose|y: int| 0 <= y < before.len() && before[y] == old(self).records()[k];
                            assert(before[y].id@ == before[x2].id@);
                        }
                        assert forall|k: int| 0 <= k <= i implies !has_port(self.records(), #[trigger] ids@[k]@) by {
                            if k < i && has_port(self.records(), ids@[k]@) {
                                let x = choose|x: int| 0 <= x < self.records().len() && (#[trigger] self.records()[x]).id@ == ids@[k]@;
                                let x2 = if x < j { x } else { x + 1 };
                                assert(before[x2] == self.records()[x]);
                            }
                        }
                    }
                    deleted.push(p.id);
                },
                Err(_) => {},
            }
            i = i + 1;
        }
        deleted
    }

    /// Adds each listed `(ip, port, protocol)` as a free record under the
    /// id at the same position of `ids`, in order, and returns the records
    /// added. An entry whose id is taken by then is skipped. A request of
    /// more than `MAX_BULK_PORTS` entries is refused with `TooMany` and
    /// changes nothing.
    pub fn bulk_add_with_ids(&mut self, ports: &Vec<(String, u16, String)>, ids: &Vec<String>, now: u64) -> (r: Result<Vec<NetworkPort>, PoolError>)
        requires
            old(self).wf(),
            ids@.len() == ports@.len(),
        ensures
            final(self).wf(),
            ports@.len() > MAX_BULK_PORTS ==> r == Err::<Vec<NetworkPort>, PoolError>(PoolError::TooMany)
                && final(self).records() == old(self).records(),
            ports@.len() <= MAX_BULK_PORTS ==> r is Ok && r->Ok_0@ == bulk_result(old(self).records(), ports@, ids@, now)
                && final(self).records() == old(self).records() + r->Ok_0@,
    {
        if ports.len() > MAX_BULK_PORTS {
            return Err(PoolError::TooMany);
        }
        let mut added: Vec<NetworkPort> = Vec::new();
        let mut i: usize = 0;
        while i < ports.len()
            invariant
                self.wf(),
                i <= ports@.len(),
                ids@.len() == ports@.len(),
                self.records() == old(self).records() + added@,
                added@ == bulk_result(old(self).records(), ports@.subrange(0, i as int), ids@.subrange(0, i as int), now),
            decreases ports.len() - i,
        {
            proof {
                assert(ports@.subrange(0, i + 1).drop_last() =~= ports@.subrange(0, i as int));
                assert(ids@.subrange(0, i + 1).drop_last() =~= ids@.subrange(0, i as int));
            }
            let id = ids[i].clone();
            let ip = ports[i].0.clone();
            let port = ports[i].1;
            let protocol = ports[i].2.clone();
            match self.add_port_with_id(id, ip, port, protocol, now) {
                Ok(p) => {
                    added.push(p);
                    assert(self.records() =~= old(self).records() + added@);
                },
                Err(_) => {},
            }
            i = i + 1;
        }
        assert(ports@.subrange(0, ports@.len() as int) =~= ports@);
        assert(ids@.subrange(0, ids@.len() as int) =~= ids@);
        Ok(added)
    }

    /// Adds each listed `(ip, port, protocol)` as a free record under a
    /// fresh random id, in order; see `bulk_add_with_ids`.
    pub fn bulk_add(&mut self, ports: Vec<(String, u16, String)>, now: u64) -> (r: Result<Vec<NetworkPort>, PoolError>)
        requires
            old(self).wf(),
        ensures
            final(self).wf(),
            ports@.len() > MAX_BULK_PORTS ==> r == Err::<Vec<NetworkPort>, PoolError>(PoolError::TooMany)
                && final(self).records() == old(self).records(),
            ports@.len() <= MAX_BULK_PORTS ==> r is Ok && final(self).records() == old(self).records() + r->Ok_0@
                && exists|ids: Seq<String>| ids.len() == ports@.len() && r->Ok_0@ == bulk_result(old(self).records(), ports@, ids, now),
    {
        let mut ids: Vec<String> = Vec::new();
        let mut i: usize = 0;
        while i < ports.len()
            invariant
                i <= ports@.len(),
                ids@.len() == i,
            decreases ports.len() - i,
        {
            ids.push(fresh_id());
            i = i + 1;
        }
        let r = self.bulk_add_with_ids(&ports, &ids, now);
        proof {
            if ports@.len() <= MAX_BULK_PORTS {
                assert(ids@.len() == ports@.len() && r->Ok_0@ == bulk_result(old(self).records(), ports@, ids@, now));
            }
        }
        r
    }

    /// Frees every in-use record on host port `port`.
    pub fn release_port_number(&mut self, port: u16)
        requires
            old(self).wf(),
        ensures
            final(self).wf(),
            final(self).records().len() == old(self).records().len(),
            forall|k: int| 0 <= k < old(self).records().len() ==> #[trigger] final(self).records()[k] == if old(self).records()[k].port == port {
                NetworkPort { in_use: false, ..old(self).records()[k] }
            } else {
                old(self).records()[k]
            },
    {
        let mut i: usize = 0;
        while i < self.ports.len()
            invariant
                self.wf(),
                i <= self.ports@.len(),
                self.ports@.len() == old(self).records().len(),
                forall|k: int| 0 <= k < i ==> #[trigger] self.ports@[k] == if old(self).records()[k].port == port {
                    NetworkPort { in_use: false, ..old(self).records()[k] }
                } else {
                    old(self).records()[k]
                },
                forall|k: int| i <= k < self.ports@.len() ==> #[trigger] self.ports@[k] == old(self).records()[k],
            decreases self.ports.len() - i,
        {
            if self.ports[i].port == port {
                let ghost before = self.ports@;
                let mut p = self.ports[i].clone();
                p.in_use = false;
                self.ports.set(i, p);
                proof {
                    assert forall|a: int, b: int| 0 <= a < self.ports@.len() && 0 <= b < self.ports@.len() && a != b
                        implies (#[trigger] self.ports@[a]).id@ != (#[trigger] self.ports@[b]).id@ by {
                        assert(before[a].id@ == self.ports@[a].id@);
                        assert(before[b].id@ == self.ports@[b].id@);
                    }
                    assert forall|a: int, b: int|
                        0 <= a < self.ports@.len() && 0 <= b < self.ports@.len() && a != b && (#[trigger] self.ports@[a]).in_use
                            && (#[trigger] self.ports@[b]).in_use implies !same_endpoint(self.ports@[a], self.ports@[b]) by {
                        assert(before[a] == self.ports@[a]);
                        assert(before[b] == self.ports@[b]);
                    }
                }
            }
            i = i + 1;
        }
    }

    /// Puts back a stored record under its own id. Fails with `Conflict`
    /// when the id is taken, or when the record is in use and another
    /// in-use record holds its endpoint.
    pub fn insert_port(&mut self, port: NetworkPort) -> (r: Result<(), PoolError>)
        requires
            old(self).wf(),
        ensures
            final(self).wf(),
            r is Ok <==> !has_port(old(self).records(), port.id@) && !(port.in_use && exists|j: int|
                0 <= j < old(self).records().len() && (#[trigger] old(self).records()[j]).in_use && same_endpoint(old(self).records()[j], port)),
            r is Ok ==> final(self).records() == old(self).records().push(port),
            r is Err ==> r == Err::<(), PoolError>(PoolError::Conflict) && final(self).records() == old(self).records(),
    {
        if self.find(port.id.as_str()).is_some() {
            return Err(PoolError::Conflict);
        }
        if port.in_use {
            let mut j: usize = 0;
            while j < self.ports.len()
                invariant
                    j <= self.ports@.len(),
                    self.wf(),
                    self.ports@ == old(self).records(),
                    !has_port(old(self).records(), port.id@),
                    port.in_use,
                    forall|k: int| 0 <= k < j ==> !((#[trigger] self.ports@[k]).in_use && same_endpoint(self.ports@[k], port)),
                decreases self.ports.len() - j,
            {
                if self.ports[j].in_use && same_text(self.ports[j].ip.as_str(), port.ip.as_str())
                    && self.ports[j].port == port.port
                    && same_text(self.ports[j].protocol.as_str(), port.protocol.as_str()) {
                    return Err(PoolError::Conflict);
                }
                j = j + 1;
            }
        }
        let ghost before = self.ports@;
        self.ports.push(port);
        proof {
            assert forall|a: int, b: int| 0 <= a < self.ports@.len() && 0 <= b < self.ports@.len() && a != b
                implies (#[trigger] self.ports@[a]).id@ != (#[trigger] self.ports@[b]).id@ by {
                if a < before.len() { assert(before[a] == self.ports@[a]); }
                if b < before.len() { assert(before[b] == self.ports@[b]); }
            }
            assert forall|a: int, b: int|
                0 <= a < self.ports@.len() && 0 <= b < self.ports@.len() && a != b && (#[trigger] self.ports@[a]).in_use
                    && (#[trigger] self.ports@[b]).in_use implies !same_endpoint(self.ports@[a], self.ports@[b]) by {
                if a < before.len() { assert(before[a] == self.ports@[a]); }
                if b < before.len() { assert(before[b] == self.ports@[b]); }
            }
        }
        Ok(())
    }
}

/// Bulk-adding under ids that are pairwise distinct and new to the pool
/// adds every entry, in entry order.
pub proof fn law_bulk_add_keeps_entries(v: Seq<NetworkPort>, entries: Seq<(String, u16, String)>, ids: Seq<String>, now: u64)
    requires
        ids.len() == entries.len(),
        forall|a: int, b: int| 0 <= a < ids.len() && 0 <= b < ids.len() && a != b ==> (#[trigger] ids[a])@ != (#[trigger] ids[b])@,
        forall|a: int| 0 <= a < ids.len() ==> !has_port(v, (#[trigger] ids[a])@),
    ensures
        bulk_result(v, entries, ids, now).len() == entries.len(),
        forall|k: int| 0 <= k < entries.len() ==> #[trigger] bulk_result(v, entries, ids, now)[k] == entry_port(ids[k], entries[k], now),
    decreases entries.len(),
{
    if entries.len() > 0 {
        let e0 = entries.drop_last();
        let i0 = ids.drop_last();
        assert forall|a: int, b: int| 0 <= a < i0.len() && 0 <= b < i0.len() && a != b implies (#[trigger] i0[a])@ != (#[trigger] i0[b])@ by {
            assert(i0[a] == ids[a]);
            assert(i0[b] == ids[b]);
        }
        assert forall|a: int| 0 <= a < i0.len() implies !has_port(v, (#[trigger] i0[a])@) by {
            assert(i0[a] == ids[a]);
        }
        law_bulk_add_keeps_entries(v, e0, i0, now);
        let prev = bulk_result(v, e0, i0, now);
        let n = ids.len() - 1;
        assert(!has_port(v + prev, ids.last()@)) by {
            if has_port(v + prev, ids.last()@) {
                let x = choose|x: int| 0 <= x < (v + prev).len() && (#[trigger] (v + prev)[x]).id@ == ids.last()@;
                if x < v.len() {
                    assert((v + prev)[x] == v[x]);
                    assert(has_port(v, ids[n]@));
                } else {
                    let k = x - v.len();
                    assert((v + prev)[x] == prev[k]);
                    assert(prev[k] == entry_port(i0[k], e0[k], now));
                    assert(i0[k] == ids[k]);
                }
            }
        }
    }
}

/// In a well-formed pool, two in-use records for one (ip, port, protocol)
/// are the same record.
pub proof fn law_endpoint_held_once(pool: &NetworkPool, i: int, j: int)
    requires
        pool.wf(),
        0 <= i < pool.records().len(),
        0 <= j < pool.records().len(),
        pool.records()[i].in_use,
        pool.records()[j].in_use,
        same_endpoint(pool.records()[i], pool.records()[j]),
    ensures
        i == j,
{
}

} // verus!

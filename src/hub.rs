//! The event hub: one channel per container, holding its runtime state, a
//! bounded log ring, the last stats pushed, and the command ingress queue.
//! Operations return the events to broadcast; delivering them is left to
//! the caller.

use vstd::prelude::*;
use crate::text::{contains, decimal, decimal_string, same_text, texts};

verus! {

/// Lines kept in a channel's log ring.
pub const LOG_CAPACITY: usize = 1000;
/// Smallest CPU change that is pushed, in hundredths of a percent (0.5 %).
pub const CPU_DELTA: u64 = 50;
/// Smallest memory change that is pushed: 1 MiB.
pub const MEMORY_DELTA: u64 = 1048576;
/// Smallest network change that is pushed: 10 KiB.
pub const NETWORK_DELTA: u64 = 10240;

/// The kind of an outbound event, as named on the wire.
#[derive(Debug, Clone, Copy, PartialEq, Eq, Structural)]
pub enum EventKind {
    Stats,
    ConsoleOutput,
    ConsoleDuplicate,
    Event,
    DaemonMessage,
    Logs,
}

/// An event sent to the subscribers of a channel.
#[derive(Debug)]
pub enum OutboundEvent {
    Stats(Vec<String>),
    ConsoleOutput(Vec<String>),
    ConsoleDuplicate(Vec<String>),
    Event(Vec<String>),
    DaemonMessage(Vec<String>),
    Logs(Vec<String>),
}

impl OutboundEvent {
    /// Kind and arguments of the event.
    pub open spec fn view_of(self) -> (EventKind, Seq<Seq<char>>) {
        match self {
            OutboundEvent::Stats(a) => (EventKind::Stats, texts(a@)),
            OutboundEvent::ConsoleOutput(a) => (EventKind::ConsoleOutput, texts(a@)),
            OutboundEvent::ConsoleDuplicate(a) => (EventKind::ConsoleDuplicate, texts(a@)),
            OutboundEvent::Event(a) => (EventKind::Event, texts(a@)),
            OutboundEvent::DaemonMessage(a) => (EventKind::DaemonMessage, texts(a@)),
            OutboundEvent::Logs(a) => (EventKind::Logs, texts(a@)),
        }
    }
}

/// Kinds and arguments of a run of events.
pub open spec fn event_views(v: Seq<OutboundEvent>) -> Seq<(EventKind, Seq<Seq<char>>)> {
    v.map_values(|e: OutboundEvent| e.view_of())
}

/// A message received from a subscriber.
#[derive(Debug, Clone)]
pub enum InboundEvent {
    /// Power action: start, kill or restart.
    Power { power: Vec<String> },
    /// A command for the container's stdin.
    SendCommand { send_command: Vec<String> },
    /// The last N lines of the log.
    RequestLogs { logs: Vec<String> },
}

/// The query of a WebSocket upgrade.
#[derive(Debug, Clone)]
pub struct WebSocketQuery {
    pub token: String,
}

/// Network counters, summed over interfaces.
#[derive(Debug, Clone, Copy, PartialEq, Eq, Structural)]
pub struct NetworkStats {
    pub rx_bytes: u64,
    pub tx_bytes: u64,
}

/// One stats sample. CPU use is held in hundredths of a percent.
#[derive(Debug)]
pub struct ContainerStats {
    pub memory_bytes: u64,
    pub memory_limit_bytes: u64,
    pub cpu_absolute_centi: u64,
    pub network: NetworkStats,
    pub uptime: u64,
    pub state: String,
    pub disk_bytes: u64,
}

impl Clone for ContainerStats {
    fn clone(&self) -> (r: Self)
        ensures
            r == *self,
    {
        ContainerStats {
            memory_bytes: self.memory_bytes,
            memory_limit_bytes: self.memory_limit_bytes,
            cpu_absolute_centi: self.cpu_absolute_centi,
            network: self.network,
            uptime: self.uptime,
            state: self.state.clone(),
            disk_bytes: self.disk_bytes,
        }
    }
}

/// Whether the runtime is up.
#[derive(Debug, Clone, Copy, PartialEq, Eq, Structural)]
pub enum ContainerRuntimeState {
    Offline,
    Starting,
    Running,
    Stopping,
}

impl ContainerRuntimeState {
    /// The state as named on the wire.
    pub open spec fn text(self) -> Seq<char> {
        match self {
            ContainerRuntimeState::Offline => "offline"@,
            ContainerRuntimeState::Starting => "starting"@,
            ContainerRuntimeState::Running => "running"@,
            ContainerRuntimeState::Stopping => "stopping"@,
        }
    }

    /// The state as named on the wire.
    pub fn to_string(&self) -> (r: String)
        ensures
            r@ == self.text(),
    {
        match self {
            ContainerRuntimeState::Offline => String::from_str("offline"),
            ContainerRuntimeState::Starting => String::from_str("starting"),
            ContainerRuntimeState::Running => String::from_str("running"),
            ContainerRuntimeState::Stopping => String::from_str("stopping"),
        }
    }
}

/// Distance between two counters.
pub open spec fn gap(a: u64, b: u64) -> int {
    if a > b { a - b } else { b - a }
}

/// A new sample is worth pushing after `prev`: the state changed, or CPU,
/// memory or a network counter moved by more than its threshold.
pub open spec fn stats_differ(prev: ContainerStats, new: ContainerStats) -> bool {
    ||| prev.state@ != new.state@
    ||| gap(prev.cpu_absolute_centi, new.cpu_absolute_centi) > CPU_DELTA
    ||| gap(prev.memory_bytes, new.memory_bytes) > MEMORY_DELTA
    ||| gap(prev.network.rx_bytes, new.network.rx_bytes) > NETWORK_DELTA
    ||| gap(prev.network.tx_bytes, new.network.tx_bytes) > NETWORK_DELTA
}

/// Distance between two counters.
fn distance(a: u64, b: u64) -> (r: u64)
    ensures
        r == gap(a, b),
{
    if a > b { a - b } else { b - a }
}

/// Whether `new` is worth pushing after `prev`.
pub fn stats_changed(prev: &ContainerStats, new: &ContainerStats) -> (r: bool)
    ensures
        r == stats_differ(*prev, *new),
{
    if !same_text(prev.state.as_str(), new.state.as_str()) {
        return true;
    }
    if distance(prev.cpu_absolute_centi, new.cpu_absolute_centi) > CPU_DELTA {
        return true;
    }
    if distance(prev.memory_bytes, new.memory_bytes) > MEMORY_DELTA {
        return true;
    }
    distance(prev.network.rx_bytes, new.network.rx_bytes) > NETWORK_DELTA
        || distance(prev.network.tx_bytes, new.network.tx_bytes) > NETWORK_DELTA
}

/// The log after appending `line`: when full, the oldest line leaves first.
pub open spec fn log_after(log: Seq<String>, line: String) -> Seq<String> {
    if log.len() >= LOG_CAPACITY { log.drop_first().push(line) } else { log.push(line) }
}

/// The last `n` lines of `log`, oldest first.
pub open spec fn last_lines(log: Seq<String>, n: nat) -> Seq<String> {
    if log.len() > n { log.subrange(log.len() - n, log.len() as int) } else { log }
}

/// A console line meets the start pattern: the pattern compiles and
/// matches it (`verdict`), or, only when it does not compile, the line
/// holds the pattern as text.
pub open spec fn pattern_hit(line: Seq<char>, pattern: Option<String>, verdict: Option<bool>) -> bool {
    pattern.is_some() && (verdict == Some(true) || (verdict.is_none() && contains(line, pattern.unwrap()@)))
}

/// Names the result of compiling `pattern` with `regex::Regex::new` and
/// testing `line` with `is_match`: `None` when the pattern does not compile.
pub uninterp spec fn regex_verdict(pattern: Seq<char>, line: Seq<char>) -> Option<bool>;

/// Relies on `regex::Regex::new` and `regex::Regex::is_match`: whether the
/// compiled pattern matches somewhere in `line`, or `None` when it does not
/// compile.
#[verifier::external_body]
pub(crate) fn regex_match(pattern: &str, line: &str) -> (r: Option<bool>)
    ensures
        r == regex_verdict(pattern@, line@),
{
    regex::Regex::new(pattern).ok().map(|re| re.is_match(line))
}

/// One container's channel.
#[derive(Debug)]
pub struct ContainerEventChannel {
    pub state: ContainerRuntimeState,
    /// The last stats pushed, for change detection.
    pub last_stats: Option<ContainerStats>,
    /// The last `LOG_CAPACITY` console lines, oldest first.
    pub log_buffer: Vec<String>,
    pub start_pattern: Option<String>,
    /// Seconds since the epoch when the container last began starting.
    pub uptime_start: Option<u64>,
    /// Commands waiting for the container's stdin, oldest first.
    pub commands: Vec<String>,
}

impl ContainerEventChannel {
    /// The log ring is within its capacity.
    pub open spec fn wf(&self) -> bool {
        self.log_buffer@.len() <= LOG_CAPACITY
    }

    /// A channel in state `Offline` with nothing logged or queued.
    pub fn new() -> (r: Self)
        ensures
            r.wf(),
            r.state == ContainerRuntimeState::Offline,
            r.last_stats.is_none(),
            r.log_buffer@.len() == 0,
            r.start_pattern.is_none(),
            r.uptime_start.is_none(),
            r.commands@.len() == 0,
    {
        ContainerEventChannel {
            state: ContainerRuntimeState::Offline,
            last_stats: None,
            log_buffer: Vec::new(),
            start_pattern: None,
            uptime_start: None,
            commands: Vec::new(),
        }
    }

    /// Queues a command for the container's stdin.
    pub fn send_command(&mut self, command: String)
        ensures
            final(self).commands@ == old(self).commands@.push(command),
            *final(self) == (ContainerEventChannel { commands: final(self).commands, ..*old(self) }),
    {
        self.commands.push(command);
    }

    /// Takes the oldest queued command.
    pub fn next_command(&mut self) -> (r: Option<String>)
        ensures
            old(self).commands@.len() == 0 ==> r.is_none() && final(self).commands@ == old(self).commands@,
            old(self).commands@.len() > 0 ==> r == Some(old(self).commands@[0])
                && final(self).commands@ == old(self).commands@.drop_first(),
            *final(self) == (ContainerEventChannel { commands: final(self).commands, ..*old(self) }),
    {
        if self.commands.len() == 0 {
            None
        } else {
            let c = self.commands.remove(0);
            assert(self.commands@ =~= old(self).commands@.drop_first());
            Some(c)
        }
    }

    /// Appends a line to the log ring, dropping the oldest when full.
    pub fn add_log(&mut self, line: String)
        requires
            old(self).wf(),
        ensures
            final(self).wf(),
            final(self).log_buffer@ == log_after(old(self).log_buffer@, line),
            *final(self) == (ContainerEventChannel { log_buffer: final(self).log_buffer, ..*old(self) }),
    {
        if self.log_buffer.len() >= LOG_CAPACITY {
            self.log_buffer.remove(0);
        }
        self.log_buffer.push(line);
        assert(self.log_buffer@ =~= log_after(old(self).log_buffer@, line));
    }

    /// The last `count` lines of the log, oldest first.
    pub fn get_logs(&self, count: usize) -> (r: Vec<String>)
        ensures
            r@ == last_lines(self.log_buffer@, count as nat),
    {
        let n = self.log_buffer.len();
        let start: usize = if n > count { n - count } else { 0 };
        let mut r: Vec<String> = Vec::new();
        let mut i: usize = start;
        while i < n
            invariant
                start <= i <= n,
                n == self.log_buffer@.len(),
                r@ == self.log_buffer@.subrange(start as int, i as int),
            decreases n - i,
        {
            r.push(self.log_buffer[i].clone());
            assert(r@ =~= self.log_buffer@.subrange(start as int, i + 1));
            i = i + 1;
        }
        assert(r@ =~= last_lines(self.log_buffer@, count as nat));
        r
    }

    /// Replaces the start pattern.
    pub fn set_start_pattern(&mut self, pattern: Option<String>)
        ensures
            *final(self) == (ContainerEventChannel { start_pattern: pattern, ..*old(self) }),
    {
        self.start_pattern = pattern;
    }

    /// The runtime state.
    pub fn get_state(&self) -> (r: ContainerRuntimeState)
        ensures
            r == self.state,
    {
        self.state
    }

    /// Replaces the runtime state.
    pub fn set_state(&mut self, new_state: ContainerRuntimeState)
        ensures
            *final(self) == (ContainerEventChannel { state: new_state, ..*old(self) }),
    {
        self.state = new_state;
    }

    /// Logs `line` and returns the events it causes, given `verdict`, the
    /// regex outcome of the start pattern on the line. While starting, a
    /// line that meets the pattern moves the state to `Running` and emits
    /// the `running` event before the line itself.
    pub fn console_with_verdict(&mut self, line: &str, verdict: Option<bool>) -> (r: Vec<OutboundEvent>)
        requires
            old(self).wf(),
        ensures
            final(self).wf(),
            final(self).log_buffer@.len() > 0 && final(self).log_buffer@.last()@ == line@,
            final(self).log_buffer@.drop_last() == (if old(self).log_buffer@.len() >= LOG_CAPACITY {
                old(self).log_buffer@.drop_first()
            } else {
                old(self).log_buffer@
            }),
            *final(self) == (ContainerEventChannel { log_buffer: final(self).log_buffer, state: final(self).state, ..*old(self) }),
            old(self).state == ContainerRuntimeState::Starting && pattern_hit(line@, old(self).start_pattern, verdict) ==> {
                &&& final(self).state == ContainerRuntimeState::Running
                &&& event_views(r@) == seq![(EventKind::Event, seq!["running"@]), (EventKind::ConsoleOutput, seq![line@])]
            },
            !(old(self).state == ContainerRuntimeState::Starting && pattern_hit(line@, old(self).start_pattern, verdict)) ==> {
                &&& final(self).state == old(self).state
                &&& event_views(r@) == seq![(EventKind::ConsoleOutput, seq![line@])]
            },
    {
        let owned = String::from_str(line);
        self.add_log(owned);
        let mut events: Vec<OutboundEvent> = Vec::new();
        if self.state == ContainerRuntimeState::Starting {
            if let Some(pat) = &self.start_pattern {
                let hay = crate::text::chars_of(line);
                let needle = crate::text::chars_of(pat.as_str());
                let hit = match verdict {
                    Some(b) => b,
                    None => crate::text::contains_chars(hay.as_slice(), needle.as_slice()),
                };
                if hit {
                    self.state = ContainerRuntimeState::Running;
                    events.push(OutboundEvent::Event(one_arg(String::from_str("running"))));
                }
            }
        }
        events.push(OutboundEvent::ConsoleOutput(one_arg(String::from_str(line))));
        proof {
            assert(event_views(events@) =~= if old(self).state == ContainerRuntimeState::Starting && pattern_hit(line@, old(self).start_pattern, verdict) {
                seq![(EventKind::Event, seq!["running"@]), (EventKind::ConsoleOutput, seq![line@])]
            } else {
                seq![(EventKind::ConsoleOutput, seq![line@])]
            });
        }
        events
    }

    /// Records `stats` when it is the first sample or differs enough from
    /// the last one pushed; returns whether it should be pushed.
    pub fn offer_stats(&mut self, stats: ContainerStats) -> (r: bool)
        ensures
            r == (old(self).last_stats.is_none() || stats_differ(old(self).last_stats.unwrap(), stats)),
            r ==> final(self).last_stats == Some(stats),
            !r ==> final(self).last_stats == old(self).last_stats,
            *final(self) == (ContainerEventChannel { last_stats: final(self).last_stats, ..*old(self) }),
    {
        let send = match &self.last_stats {
            Some(prev) => stats_changed(prev, &stats),
            None => true,
        };
        if send {
            self.last_stats = Some(stats);
        }
        send
    }
}

/// A one-element argument list.
fn one_arg(s: String) -> (r: Vec<String>)
    ensures
        texts(r@) == seq![s@],
{
    let mut r: Vec<String> = Vec::new();
    r.push(s);
    assert(texts(r@) =~= seq![s@]);
    r
}

/// Position of the channel of `v` keyed `id`.
pub open spec fn channel_index(v: Seq<(String, ContainerEventChannel)>, id: Seq<char>) -> int {
    choose|i: int| 0 <= i < v.len() && (#[trigger] v[i]).0@ == id
}

/// No two channels share a key.
pub open spec fn keys_unique(v: Seq<(String, ContainerEventChannel)>) -> bool {
    forall|i: int, j: int| 0 <= i < v.len() && 0 <= j < v.len() && i != j ==> (#[trigger] v[i]).0@ != (#[trigger] v[j]).0@
}

/// Some channel of `v` is keyed `id`.
pub open spec fn has_channel(v: Seq<(String, ContainerEventChannel)>, id: Seq<char>) -> bool {
    exists|i: int| 0 <= i < v.len() && (#[trigger] v[i]).0@ == id
}

/// What `get_or_create_channel(id)` does: an existing channel is returned
/// untouched; otherwise a fresh channel keyed `id` is appended and returned.
pub open spec fn get_or_create_post(
    before: Seq<(String, ContainerEventChannel)>,
    after: Seq<(String, ContainerEventChannel)>,
    id: Seq<char>,
    r: (usize, bool),
) -> bool {
    if has_channel(before, id) {
        &&& after == before
        &&& r.0 == channel_index(before, id)
        &&& !r.1
    } else {
        &&& after.len() == before.len() + 1
        &&& after.drop_last() == before
        &&& after.last().0@ == id
        &&& after.last().1.state == ContainerRuntimeState::Offline
        &&& after.last().1.log_buffer@.len() == 0
        &&& after.last().1.commands@.len() == 0
        &&& r.0 == before.len()
        &&& r.1
    }
}

/// The events that logging `line` causes on a channel in `state` with
/// start pattern `pattern`, given the regex outcome `verdict`.
pub open spec fn console_views(state: ContainerRuntimeState, pattern: Option<String>, line: Seq<char>, verdict: Option<bool>) -> Seq<(EventKind, Seq<Seq<char>>)> {
    if state == ContainerRuntimeState::Starting && pattern_hit(line, pattern, verdict) {
        seq![(EventKind::Event, seq!["running"@]), (EventKind::ConsoleOutput, seq![line])]
    } else {
        seq![(EventKind::ConsoleOutput, seq![line])]
    }
}

/// Only the channel at `i` changed, and it kept its key.
pub open spec fn only_channel_changed(
    before: Seq<(String, ContainerEventChannel)>,
    after: Seq<(String, ContainerEventChannel)>,
    i: int,
) -> bool {
    &&& after.len() == before.len()
    &&& after[i].0 == before[i].0
    &&& forall|k: int| 0 <= k < before.len() && k != i ==> after[k] == before[k]
}

/// `after` is `before` once `line` has been logged; `hit` says whether it
/// met the start pattern while starting.
pub open spec fn logged(before: ContainerEventChannel, after: ContainerEventChannel, line: Seq<char>, hit: bool) -> bool {
    &&& after.log_buffer@.len() > 0
    &&& after.log_buffer@.last()@ == line
    &&& after.log_buffer@.drop_last() == if before.log_buffer@.len() >= LOG_CAPACITY {
        before.log_buffer@.drop_first()
    } else {
        before.log_buffer@
    }
    &&& after.state == if hit { ContainerRuntimeState::Running } else { before.state }
    &&& after == (ContainerEventChannel { log_buffer: after.log_buffer, state: after.state, ..before })
}

/// Under unique keys, the channel keyed `id` is at `i`.
pub proof fn lemma_channel_index(v: Seq<(String, ContainerEventChannel)>, id: Seq<char>, i: int)
    requires
        keys_unique(v),
        0 <= i < v.len(),
        v[i].0@ == id,
    ensures
        has_channel(v, id),
        channel_index(v, id) == i,
{
    assert(has_channel(v, id));
    let k = channel_index(v, id);
    assert(v[k].0@ == id);
}

/// Every container's channel.
pub struct EventHub {
    channels: Vec<(String, ContainerEventChannel)>,
}

impl EventHub {
    /// The channels and their keys, in creation order.
    pub closed spec fn slots(&self) -> Seq<(String, ContainerEventChannel)> {
        self.channels@
    }

    /// Keys are unique and every channel's log ring is within its capacity.
    pub open spec fn wf(&self) -> bool {
        &&& keys_unique(self.slots())
        &&& forall|i: int| 0 <= i < self.slots().len() ==> (#[trigger] self.slots()[i]).1.wf()
    }

    /// A hub without channels.
    pub fn new() -> (r: Self)
        ensures
            r.wf(),
            r.slots().len() == 0,
    {
        EventHub { channels: Vec::new() }
    }

    /// Position of the channel keyed `id`.
    pub fn get_channel(&self, internal_id: &str) -> (r: Option<usize>)
        requires
            self.wf(),
        ensures
            r.is_none() == !has_channel(self.slots(), internal_id@),
            r.is_some() ==> r.unwrap() == channel_index(self.slots(), internal_id@),
            r.is_some() ==> r.unwrap() < self.slots().len() && self.slots()[r.unwrap() as int].0@ == internal_id@,
    {
        let mut i: usize = 0;
        while i < self.channels.len()
            invariant
                i <= self.channels@.len(),
                self.wf(),
                forall|j: int| 0 <= j < i ==> (#[trigger] self.channels@[j]).0@ != internal_id@,
            decreases self.channels.len() - i,
        {
            if same_text(self.channels[i].0.as_str(), internal_id) {
                proof {
                    lemma_channel_index(self.slots(), internal_id@, i as int);
                }
                return Some(i);
            }
            i = i + 1;
        }
        None
    }

    /// The channel at position `i`.
    pub fn channel(&self, i: usize) -> (r: &ContainerEventChannel)
        requires
            i < self.slots().len(),
        ensures
            *r == self.slots()[i as int].1,
    {
        &self.channels[i].1
    }

    /// Position of the channel keyed `id`, made on first use; the flag says
    /// whether it was made now, in which case the caller owns its stdin.
    pub fn get_or_create_channel(&mut self, internal_id: &str) -> (r: (usize, bool))
        requires
            old(self).wf(),
        ensures
            final(self).wf(),
            get_or_create_post(old(self).slots(), final(self).slots(), internal_id@, r),
    {
        match self.get_channel(internal_id) {
            Some(i) => (i, false),
            None => {
                let n = self.channels.len();
                let ghost before = self.channels@;
                self.channels.push((String::from_str(internal_id), ContainerEventChannel::new()));
                proof {
                    assert(self.channels@.drop_last() =~= before);
                    assert forall|i: int| 0 <= i < self.slots().len() implies (#[trigger] self.slots()[i]).1.wf() by {
                        if i < before.len() {
                            assert(before[i] == self.slots()[i]);
                        }
                    }
                    assert forall|a: int, b: int| 0 <= a < self.slots().len() && 0 <= b < self.slots().len() && a != b
                        implies (#[trigger] self.slots()[a]).0@ != (#[trigger] self.slots()[b]).0@ by {
                        if a < before.len() { assert(before[a] == self.slots()[a]); }
                        if b < before.len() { assert(before[b] == self.slots()[b]); }
                    }
                }
                (n, true)
            },
        }
    }

    /// Drops the channel keyed `id`, if any.
    pub fn remove_channel(&mut self, internal_id: &str)
        requires
            old(self).wf(),
        ensures
            final(self).wf(),
            !has_channel(old(self).slots(), internal_id@) ==> final(self).slots() == old(self).slots(),
            has_channel(old(self).slots(), internal_id@) ==> final(self).slots() == old(self).slots().remove(
                channel_index(old(self).slots(), internal_id@),
            ),
    {
        if let Some(i) = self.get_channel(internal_id) {
            let ghost before = self.channels@;
            self.channels.remove(i);
            proof {
                assert forall|k: int| 0 <= k < self.slots().len() implies (#[trigger] self.slots()[k]).1.wf() by {
                    let k2 = if k < i { k } else { k + 1 };
                    assert(before[k2] == self.slots()[k]);
                }
                assert forall|a: int, b: int| 0 <= a < self.slots().len() && 0 <= b < self.slots().len() && a != b
                    implies (#[trigger] self.slots()[a]).0@ != (#[trigger] self.slots()[b]).0@ by {
                    let a2 = if a < i { a } else { a + 1 };
                    let b2 = if b < i { b } else { b + 1 };
                    assert(before[a2] == self.slots()[a]);
                    assert(before[b2] == self.slots()[b]);
                }
            }
        }
    }

    /// Moves the channel at `i` out, leaving a fresh one in its place.
    fn take(&mut self, i: usize) -> (r: ContainerEventChannel)
        requires
            old(self).wf(),
            i < old(self).slots().len(),
        ensures
            r == old(self).slots()[i as int].1,
            final(self).slots().len() == old(self).slots().len(),
            final(self).slots()[i as int].0 == old(self).slots()[i as int].0,
            forall|k: int| 0 <= k < old(self).slots().len() && k != i ==> final(self).slots()[k] == old(self).slots()[k],
            final(self).wf(),
    {
        let (key, ch) = self.channels.remove(i);
        self.channels.insert(i, (key, ContainerEventChannel::new()));
        proof {
            assert forall|a: int, b: int| 0 <= a < self.slots().len() && 0 <= b < self.slots().len() && a != b
                implies (#[trigger] self.slots()[a]).0@ != (#[trigger] self.slots()[b]).0@ by {
                assert(old(self).slots()[a].0 == self.slots()[a].0);
                assert(old(self).slots()[b].0 == self.slots()[b].0);
            }
            assert forall|k: int| 0 <= k < self.slots().len() implies (#[trigger] self.slots()[k]).1.wf() by {
                if k != i {
                    assert(old(self).slots()[k] == self.slots()[k]);
                }
            }
        }
        ch
    }

    /// Puts `ch` back at `i`.
    fn put(&mut self, i: usize, ch: ContainerEventChannel)
        requires
            old(self).wf(),
            i < old(self).slots().len(),
            ch.wf(),
        ensures
            final(self).slots() == old(self).slots().update(i as int, (old(self).slots()[i as int].0, ch)),
            final(self).wf(),
    {
        let (key, _) = self.channels.remove(i);
        self.channels.insert(i, (key, ch));
        proof {
            assert(self.slots() =~= old(self).slots().update(i as int, (old(self).slots()[i as int].0, ch)));
            assert forall|a: int, b: int| 0 <= a < self.slots().len() && 0 <= b < self.slots().len() && a != b
                implies (#[trigger] self.slots()[a]).0@ != (#[trigger] self.slots()[b]).0@ by {
                assert(old(self).slots()[a].0 == self.slots()[a].0);
                assert(old(self).slots()[b].0 == self.slots()[b].0);
            }
            assert forall|k: int| 0 <= k < self.slots().len() implies (#[trigger] self.slots()[k]).1.wf() by {
                if k != i {
                    assert(old(self).slots()[k] == self.slots()[k]);
                }
            }
        }
    }

    /// Logs `line` on the channel keyed `id` and returns the events to
    /// broadcast, given `verdict`, the regex outcome of the channel's start
    /// pattern on the line. Nothing happens without a channel.
    pub fn broadcast_console_with_verdict(&mut self, internal_id: &str, line: &str, verdict: Option<bool>) -> (r: Vec<OutboundEvent>)
        requires
            old(self).wf(),
        ensures
            final(self).wf(),
            !has_channel(old(self).slots(), internal_id@) ==> r@.len() == 0 && final(self).slots() == old(self).slots(),
            has_channel(old(self).slots(), internal_id@) ==> {
                let i = channel_index(old(self).slots(), internal_id@);
                let before = old(self).slots()[i].1;
                let after = final(self).slots()[i].1;
                let hit = before.state == ContainerRuntimeState::Starting && pattern_hit(line@, before.start_pattern, verdict);
                &&& only_channel_changed(old(self).slots(), final(self).slots(), i)
                &&& logged(before, after, line@, hit)
                &&& event_views(r@) == if hit {
                    seq![(EventKind::Event, seq!["running"@]), (EventKind::ConsoleOutput, seq![line@])]
                } else {
                    seq![(EventKind::ConsoleOutput, seq![line@])]
                }
            },
    {
        match self.get_channel(internal_id) {
            None => Vec::new(),
            Some(i) => {
                proof {
                    assert(self.slots()[i as int].1.wf());
                }
                let mut ch = self.take(i);
                let events = ch.console_with_verdict(line, verdict);
                self.put(i, ch);
                events
            },
        }
    }

    /// Logs `line` on the channel keyed `id` and returns the events to
    /// broadcast; the start pattern is tried as a regex on the line.
    pub fn broadcast_console(&mut self, internal_id: &str, line: &str) -> (r: Vec<OutboundEvent>)
        requires
            old(self).wf(),
        ensures
            final(self).wf(),
            !has_channel(old(self).slots(), internal_id@) ==> r@.len() == 0 && final(self).slots() == old(self).slots(),
            has_channel(old(self).slots(), internal_id@) ==> {
                let i = channel_index(old(self).slots(), internal_id@);
                let before = old(self).slots()[i].1;
                let pattern = before.start_pattern;
                let verdict = if pattern.is_some() { regex_verdict(pattern.unwrap()@, line@) } else { None };
                let hit = before.state == ContainerRuntimeState::Starting && pattern_hit(line@, pattern, verdict);
                &&& only_channel_changed(old(self).slots(), final(self).slots(), i)
                &&& logged(before, final(self).slots()[i].1, line@, hit)
                &&& event_views(r@) == if hit {
                    seq![(EventKind::Event, seq!["running"@]), (EventKind::ConsoleOutput, seq![line@])]
                } else {
                    seq![(EventKind::ConsoleOutput, seq![line@])]
                }
            },
    {
        let verdict = match self.get_channel(internal_id) {
            None => None,
            Some(i) => match &self.channel(i).start_pattern {
                Some(p) => regex_match(p.as_str(), line),
                None => None,
            },
        };
        self.broadcast_console_with_verdict(internal_id, line, verdict)
    }

    /// The event for a run of `count` repeated lines; none without a channel.
    pub fn broadcast_console_duplicate(&self, internal_id: &str, count: u32) -> (r: Vec<OutboundEvent>)
        requires
            self.wf(),
        ensures
            !has_channel(self.slots(), internal_id@) ==> r@.len() == 0,
            has_channel(self.slots(), internal_id@) ==> event_views(r@) == seq![
                (EventKind::ConsoleDuplicate, seq![decimal(count as nat)])
            ],
    {
        let mut r: Vec<OutboundEvent> = Vec::new();
        if self.get_channel(internal_id).is_some() {
            r.push(OutboundEvent::ConsoleDuplicate(one_arg(decimal_string(count as u64))));
            assert(event_views(r@) =~= seq![(EventKind::ConsoleDuplicate, seq![decimal(count as nat)])]);
        }
        r
    }

    /// One event of `kind` carrying `text`; none without a channel.
    fn single(&self, internal_id: &str, kind: EventKind, text: &str) -> (r: Vec<OutboundEvent>)
        requires
            self.wf(),
            kind == EventKind::Event || kind == EventKind::DaemonMessage,
        ensures
            !has_channel(self.slots(), internal_id@) ==> r@.len() == 0,
            has_channel(self.slots(), internal_id@) ==> event_views(r@) == seq![(kind, seq![text@])],
    {
        let mut r: Vec<OutboundEvent> = Vec::new();
        if self.get_channel(internal_id).is_some() {
            let args = one_arg(String::from_str(text));
            if kind == EventKind::Event {
                r.push(OutboundEvent::Event(args));
            } else {
                r.push(OutboundEvent::DaemonMessage(args));
            }
            assert(event_views(r@) =~= seq![(kind, seq![text@])]);
        }
        r
    }

    /// A lifecycle event (installing, running, exit, ...); none without a channel.
    pub fn broadcast_event(&self, internal_id: &str, event: &str) -> (r: Vec<OutboundEvent>)
        requires
            self.wf(),
        ensures
            !has_channel(self.slots(), internal_id@) ==> r@.len() == 0,
            has_channel(self.slots(), internal_id@) ==> event_views(r@) == seq![(EventKind::Event, seq![event@])],
    {
        self.single(internal_id, EventKind::Event, event)
    }

    /// A daemon message; none without a channel.
    pub fn broadcast_daemon_message(&self, internal_id: &str, message: &str) -> (r: Vec<OutboundEvent>)
        requires
            self.wf(),
        ensures
            !has_channel(self.slots(), internal_id@) ==> r@.len() == 0,
            has_channel(self.slots(), internal_id@) ==> event_views(r@) == seq![(EventKind::DaemonMessage, seq![message@])],
    {
        self.single(internal_id, EventKind::DaemonMessage, message)
    }

    /// The last `count` log lines as one event; none without a channel.
    pub fn send_logs(&self, internal_id: &str, count: usize) -> (r: Vec<OutboundEvent>)
        requires
            self.wf(),
        ensures
            !has_channel(self.slots(), internal_id@) ==> r@.len() == 0,
            has_channel(self.slots(), internal_id@) ==> event_views(r@) == seq![
                (EventKind::Logs, texts(last_lines(self.slots()[channel_index(self.slots(), internal_id@)].1.log_buffer@, count as nat)))
            ],
    {
        let mut r: Vec<OutboundEvent> = Vec::new();
        if let Some(i) = self.get_channel(internal_id) {
            let logs = self.channel(i).get_logs(count);
            let ghost l = logs@;
            r.push(OutboundEvent::Logs(logs));
            assert(event_views(r@) =~= seq![(EventKind::Logs, texts(l))]);
        }
        r
    }

    /// Offers a stats sample to the channel keyed `id`; true when it should
    /// be pushed. Nothing happens without a channel.
    pub fn broadcast_stats(&mut self, internal_id: &str, stats: ContainerStats) -> (r: bool)
        requires
            old(self).wf(),
        ensures
            final(self).wf(),
            !has_channel(old(self).slots(), internal_id@) ==> !r && final(self).slots() == old(self).slots(),
            has_channel(old(self).slots(), internal_id@) ==> {
                let i = channel_index(old(self).slots(), internal_id@);
                let last = old(self).slots()[i].1.last_stats;
                &&& r == (last.is_none() || stats_differ(last.unwrap(), stats))
                &&& final(self).slots()[i].1.last_stats == if r { Some(stats) } else { last }
                &&& only_channel_changed(old(self).slots(), final(self).slots(), i)
                &&& final(self).slots()[i].1 == (ContainerEventChannel {
                    last_stats: final(self).slots()[i].1.last_stats,
                    ..old(self).slots()[i].1
                })
            },
    {
        match self.get_channel(internal_id) {
            None => false,
            Some(i) => {
                proof {
                    assert(self.slots()[i as int].1.wf());
                }
                let mut ch = self.take(i);
                let r = ch.offer_stats(stats);
                self.put(i, ch);
                r
            },
        }
    }

    /// Queues a command on the channel keyed `id`; false without a channel.
    pub fn send_command(&mut self, internal_id: &str, command: String) -> (r: bool)
        requires
            old(self).wf(),
        ensures
            final(self).wf(),
            r == has_channel(old(self).slots(), internal_id@),
            !r ==> final(self).slots() == old(self).slots(),
            r ==> {
                let i = channel_index(old(self).slots(), internal_id@);
                let after = final(self).slots()[i].1;
                &&& only_channel_changed(old(self).slots(), final(self).slots(), i)
                &&& after.commands@ == old(self).slots()[i].1.commands@.push(command)
                &&& after == (ContainerEventChannel { commands: after.commands, ..old(self).slots()[i].1 })
            },
    {
        match self.get_channel(internal_id) {
            None => false,
            Some(i) => {
                proof {
                    assert(self.slots()[i as int].1.wf());
                }
                let mut ch = self.take(i);
                ch.send_command(command);
                self.put(i, ch);
                true
            },
        }
    }

    /// Takes the oldest command queued on the channel keyed `id`.
    pub fn next_command(&mut self, internal_id: &str) -> (r: Option<String>)
        requires
            old(self).wf(),
        ensures
            final(self).wf(),
            !has_channel(old(self).slots(), internal_id@) ==> r.is_none() && final(self).slots() == old(self).slots(),
            has_channel(old(self).slots(), internal_id@) ==> {
                let i = channel_index(old(self).slots(), internal_id@);
                let q = old(self).slots()[i].1.commands@;
                let after = final(self).slots()[i].1;
                &&& only_channel_changed(old(self).slots(), final(self).slots(), i)
                &&& q.len() == 0 ==> r.is_none() && after.commands@ == q
                &&& q.len() > 0 ==> r == Some(q[0]) && after.commands@ == q.drop_first()
                &&& after == (ContainerEventChannel { commands: after.commands, ..old(self).slots()[i].1 })
            },
    {
        match self.get_channel(internal_id) {
            None => None,
            Some(i) => {
                proof {
                    assert(self.slots()[i as int].1.wf());
                }
                let mut ch = self.take(i);
                let r = ch.next_command();
                self.put(i, ch);
                r
            },
        }
    }

    /// Sets the runtime state of the channel keyed `id`; false without a channel.
    pub fn set_state(&mut self, internal_id: &str, state: ContainerRuntimeState) -> (r: bool)
        requires
            old(self).wf(),
        ensures
            final(self).wf(),
            r == has_channel(old(self).slots(), internal_id@),
            !r ==> final(self).slots() == old(self).slots(),
            r ==> {
                let i = channel_index(old(self).slots(), internal_id@);
                let before = old(self).slots()[i].1;
                let after = final(self).slots()[i].1;
                &&& only_channel_changed(old(self).slots(), final(self).slots(), i)
                &&& final(self).slots()[i].0 == old(self).slots()[i].0
                &&& forall|k: int| 0 <= k < old(self).slots().len() && k != i ==> final(self).slots()[k] == old(self).slots()[k]
                &&& after == (ContainerEventChannel { state, ..before })
            },
    {
        match self.get_channel(internal_id) {
            None => false,
            Some(i) => {
                proof {
                    assert(self.slots()[i as int].1.wf());
                }
                let mut ch = self.take(i);
                ch.set_state(state);
                self.put(i, ch);
                true
            },
        }
    }

    /// Sets when the container of the channel keyed `id` began starting;
    /// false without a channel.
    pub fn set_uptime_start(&mut self, internal_id: &str, start: Option<u64>) -> (r: bool)
        requires
            old(self).wf(),
        ensures
            final(self).wf(),
            r == has_channel(old(self).slots(), internal_id@),
            !r ==> final(self).slots() == old(self).slots(),
            r ==> {
                let i = channel_index(old(self).slots(), internal_id@);
                &&& only_channel_changed(old(self).slots(), final(self).slots(), i)
                &&& final(self).slots()[i].1 == (ContainerEventChannel { uptime_start: start, ..old(self).slots()[i].1 })
            },
    {
        match self.get_channel(internal_id) {
            None => false,
            Some(i) => {
                proof {
                    assert(self.slots()[i as int].1.wf());
                }
                let mut ch = self.take(i);
                ch.uptime_start = start;
                self.put(i, ch);
                true
            },
        }
    }

    /// Sets the start pattern of the channel keyed `id`; false without a channel.
    pub fn set_start_pattern(&mut self, internal_id: &str, pattern: Option<String>) -> (r: bool)
        requires
            old(self).wf(),
        ensures
            final(self).wf(),
            r == has_channel(old(self).slots(), internal_id@),
            !r ==> final(self).slots() == old(self).slots(),
            r ==> {
                let i = channel_index(old(self).slots(), internal_id@);
                let before = old(self).slots()[i].1;
                let after = final(self).slots()[i].1;
                &&& only_channel_changed(old(self).slots(), final(self).slots(), i)
                &&& after == (ContainerEventChannel { start_pattern: pattern, ..before })
            },
    {
        match self.get_channel(internal_id) {
            None => false,
            Some(i) => {
                proof {
                    assert(self.slots()[i as int].1.wf());
                }
                let mut ch = self.take(i);
                ch.set_start_pattern(pattern);
                self.put(i, ch);
                true
            },
        }
    }
}

/// Once `get_or_create_channel(id)` has returned position `r.0`, the hub
/// holds a channel keyed `id` there; a repeated call therefore returns the
/// same position and changes nothing.
pub proof fn law_get_or_create_idempotent(
    before: Seq<(String, ContainerEventChannel)>,
    after: Seq<(String, ContainerEventChannel)>,
    id: Seq<char>,
    r: (usize, bool),
    again: Seq<(String, ContainerEventChannel)>,
    r2: (usize, bool),
)
    requires
        keys_unique(before),
        get_or_create_post(before, after, id, r),
        get_or_create_post(after, again, id, r2),
    ensures
        r2.0 == r.0,
        !r2.1,
        again == after,
{
    if !has_channel(before, id) {
        let n = before.len() as int;
        assert(after[n].0@ == id);
        assert forall|a: int, b: int| 0 <= a < after.len() && 0 <= b < after.len() && a != b
            implies (#[trigger] after[a]).0@ != (#[trigger] after[b]).0@ by {
            if a < n { assert(after[a] == before[a]); }
            if b < n { assert(after[b] == before[b]); }
            if a == n && b < n { assert(!has_channel(before, id)); assert(before[b].0@ != id); }
            if b == n && a < n { assert(before[a].0@ != id); }
        }
        lemma_channel_index(after, id, n);
    } else {
        let i = channel_index(before, id);
        assert(has_channel(after, id));
    }
}

/// The queue after `send_command` of each of `cmds`, in turn.
pub open spec fn sent_all(q: Seq<String>, cmds: Seq<String>) -> Seq<String>
    decreases cmds.len(),
{
    if cmds.len() == 0 {
        q
    } else {
        sent_all(q.push(cmds[0]), cmds.drop_first())
    }
}

/// What `k` calls of `next_command` return on queue `q`, in turn.
pub open spec fn taken(q: Seq<String>, k: nat) -> Seq<String>
    decreases k,
{
    if k == 0 || q.len() == 0 {
        Seq::empty()
    } else {
        seq![q[0]] + taken(q.drop_first(), (k - 1) as nat)
    }
}

/// Queuing appends to the back.
proof fn lemma_sent_all(q: Seq<String>, cmds: Seq<String>)
    ensures
        sent_all(q, cmds) == q + cmds,
    decreases cmds.len(),
{
    if cmds.len() > 0 {
        lemma_sent_all(q.push(cmds[0]), cmds.drop_first());
        assert(q.push(cmds[0]) + cmds.drop_first() =~= q + cmds);
    } else {
        assert(q + cmds =~= q);
    }
}

/// Taking yields the front of the queue, in order.
proof fn lemma_taken(q: Seq<String>, k: nat)
    requires
        k <= q.len(),
    ensures
        taken(q, k) == q.subrange(0, k as int),
    decreases k,
{
    if k > 0 {
        lemma_taken(q.drop_first(), (k - 1) as nat);
        assert(seq![q[0]] + q.drop_first().subrange(0, k - 1) =~= q.subrange(0, k as int));
    } else {
        assert(q.subrange(0, 0) =~= Seq::<String>::empty());
    }
}

/// Commands reach the container in the order they were queued: after
/// queuing `cmds` behind a queue `q`, taking from the queue yields `q`,
/// then `cmds` in order.
pub proof fn law_commands_in_order(q: Seq<String>, cmds: Seq<String>)
    ensures
        taken(sent_all(q, cmds), q.len() + cmds.len()) == q + cmds,
{
    lemma_sent_all(q, cmds);
    lemma_taken(q + cmds, q.len() + cmds.len());
    assert((q + cmds).subrange(0, (q + cmds).len() as int) =~= q + cmds);
}

} // verus!

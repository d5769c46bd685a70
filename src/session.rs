//! What a WebSocket subscriber's messages do to its container's channel.

use vstd::prelude::*;
use crate::auth::{parse_usize, parsed_usize};
use crate::fileinfo::{lower_of, lowercase};
use crate::hub::{
    channel_index, event_views, has_channel, last_lines, ContainerEventChannel, ContainerRuntimeState, ContainerStats,
    EventHub, EventKind, InboundEvent, NetworkStats, OutboundEvent,
};
use crate::lifecycle::{action_of, parse_power_action, PowerAction};
use crate::text::texts;

verus! {

/// Log lines sent when a request names no valid count.
pub const DEFAULT_LOG_LINES: usize = 50;

/// The state a power action moves the channel to, and the event it announces.
pub open spec fn power_announcement(a: PowerAction) -> (ContainerRuntimeState, Seq<char>) {
    match a {
        PowerAction::Start => (ContainerRuntimeState::Starting, "starting"@),
        PowerAction::Kill => (ContainerRuntimeState::Stopping, "stopping"@),
        PowerAction::Restart => (ContainerRuntimeState::Stopping, "stopping"@),
    }
}

/// Applies a power request whose word, in lower case, is `word`: a known
/// action moves the channel to its state and is announced before it is
/// handed back to run; an unknown word does nothing.
pub fn inbound_power(hub: &mut EventHub, internal_id: &str, word: &str) -> (r: (Vec<OutboundEvent>, Option<PowerAction>))
    requires
        old(hub).wf(),
    ensures
        final(hub).wf(),
        r.1 == action_of(word@),
        action_of(word@).is_none() ==> r.0@.len() == 0 && final(hub).slots() == old(hub).slots(),
        action_of(word@).is_some() && has_channel(old(hub).slots(), internal_id@) ==> {
            let i = channel_index(old(hub).slots(), internal_id@);
            let (state, text) = power_announcement(action_of(word@).unwrap());
            &&& final(hub).slots()[i].1.state == state
            &&& event_views(r.0@) == seq![(EventKind::Event, seq![text])]
        },
        action_of(word@).is_some() && !has_channel(old(hub).slots(), internal_id@) ==> r.0@.len() == 0,
{
    let action = parse_power_action(word);
    match action {
        None => (Vec::new(), None),
        Some(a) => {
            let (state, text) = match a {
                PowerAction::Start => (ContainerRuntimeState::Starting, "starting"),
                PowerAction::Kill => (ContainerRuntimeState::Stopping, "stopping"),
                PowerAction::Restart => (ContainerRuntimeState::Stopping, "stopping"),
            };
            let ghost before = hub.slots();
            hub.set_state(internal_id, state);
            proof {
                if has_channel(before, internal_id@) {
                    let i = channel_index(before, internal_id@);
                    crate::hub::lemma_channel_index(hub.slots(), internal_id@, i);
                }
            }
            let events = hub.broadcast_event(internal_id, text);
            (events, Some(a))
        },
    }
}

/// The number of log lines a request asks for: its first argument when
/// it parses, else `DEFAULT_LOG_LINES`.
pub open spec fn requested_lines(args: Seq<String>) -> usize {
    if args.len() > 0 && parsed_usize(args[0]@).is_some() {
        parsed_usize(args[0]@).unwrap()
    } else {
        DEFAULT_LOG_LINES
    }
}

/// Applies one subscriber message to the channel of `internal_id`.
/// Returns the events to broadcast and the power action to run, if any.
/// A power word is compared in lower case; a command is queued for the
/// container's stdin; a log request is answered with the last lines.
/// A message without arguments is ignored.
pub fn handle_inbound_event(hub: &mut EventHub, internal_id: &str, event: &InboundEvent) -> (r: (Vec<OutboundEvent>, Option<PowerAction>))
    requires
        old(hub).wf(),
    ensures
        final(hub).wf(),
        match event {
            InboundEvent::Power { power } => {
                &&& power@.len() == 0 ==> r.0@.len() == 0 && r.1.is_none() && final(hub).slots() == old(hub).slots()
                &&& power@.len() > 0 ==> r.1 == action_of(lower_of(power@[0]@))
                &&& power@.len() > 0 && action_of(lower_of(power@[0]@)).is_none() ==> r.0@.len() == 0
                    && final(hub).slots() == old(hub).slots()
                &&& power@.len() > 0 && action_of(lower_of(power@[0]@)).is_some() && has_channel(old(hub).slots(), internal_id@) ==> {
                    let i = channel_index(old(hub).slots(), internal_id@);
                    let (state, text) = power_announcement(action_of(lower_of(power@[0]@)).unwrap());
                    &&& final(hub).slots()[i].1.state == state
                    &&& event_views(r.0@) == seq![(EventKind::Event, seq![text])]
                }
            },
            InboundEvent::SendCommand { send_command } => {
                &&& r.0@.len() == 0
                &&& r.1.is_none()
                &&& send_command@.len() == 0 ==> final(hub).slots() == old(hub).slots()
                &&& send_command@.len() > 0 && has_channel(old(hub).slots(), internal_id@) ==> {
                    let i = channel_index(old(hub).slots(), internal_id@);
                    final(hub).slots()[i].1.commands@ == old(hub).slots()[i].1.commands@.push(send_command@[0])
                }
            },
            InboundEvent::RequestLogs { logs } => {
                &&& r.1.is_none()
                &&& final(hub).slots() == old(hub).slots()
                &&& has_channel(old(hub).slots(), internal_id@) ==> event_views(r.0@) == seq![
                    (EventKind::Logs, texts(last_lines(
                        old(hub).slots()[channel_index(old(hub).slots(), internal_id@)].1.log_buffer@,
                        requested_lines(logs@) as nat,
                    )))
                ]
            },
        },
{
    match event {
        InboundEvent::Power { power } => {
            if power.len() == 0 {
                return (Vec::new(), None);
            }
            let word = lowercase(power[0].as_str());
            inbound_power(hub, internal_id, word.as_str())
        },
        InboundEvent::SendCommand { send_command } => {
            if send_command.len() > 0 {
                hub.send_command(internal_id, send_command[0].clone());
            }
            (Vec::new(), None)
        },
        InboundEvent::RequestLogs { logs } => {
            let count = if logs.len() > 0 {
                match parse_usize(logs[0].as_str()) {
                    Some(n) => n,
                    None => DEFAULT_LOG_LINES,
                }
            } else {
                DEFAULT_LOG_LINES
            };
            (hub.send_logs(internal_id, count), None)
        },
    }
}

/// The next wait of a retry loop: doubled, but never above `cap`.
pub fn next_backoff(current_ms: u64, cap_ms: u64) -> (r: u64)
    ensures
        r == if current_ms as int * 2 > cap_ms as int { cap_ms as int } else { current_ms as int * 2 },
{
    if current_ms > cap_ms / 2 {
        cap_ms
    } else {
        current_ms * 2
    }
}

/// Seconds a container has been up at time `now`, 0 when it never started.
pub fn uptime(channel: &ContainerEventChannel, now: u64) -> (r: u64)
    ensures
        channel.uptime_start.is_none() ==> r == 0,
        channel.uptime_start.is_some() ==> r == if now >= channel.uptime_start.unwrap() {
            now - channel.uptime_start.unwrap()
        } else {
            0
        },
{
    match channel.uptime_start {
        None => 0,
        Some(start) => if now >= start { now - start } else { 0 },
    }
}

/// Sum of the selected counter over interfaces, as a number.
pub open spec fn counter_total(nets: Seq<(u64, u64)>, rx: bool) -> nat
    decreases nets.len(),
{
    if nets.len() == 0 {
        0
    } else {
        counter_total(nets.drop_last(), rx) + if rx { nets.last().0 as nat } else { nets.last().1 as nat }
    }
}

/// A total that stops at the largest counter value.
pub open spec fn capped(n: nat) -> u64 {
    if n > u64::MAX { u64::MAX } else { n as u64 }
}

/// The sum of the selected counter over interfaces, stopping at `u64::MAX`.
fn sum_counter(nets: &Vec<(u64, u64)>, rx: bool) -> (r: u64)
    ensures
        r == capped(counter_total(nets@, rx)),
{
    let mut total: u64 = 0;
    let mut i: usize = 0;
    while i < nets.len()
        invariant
            i <= nets@.len(),
            total == capped(counter_total(nets@.subrange(0, i as int), rx)),
        decreases nets.len() - i,
    {
        assert(nets@.subrange(0, i + 1).drop_last() =~= nets@.subrange(0, i as int));
        let add = if rx { nets[i].0 } else { nets[i].1 };
        total = total.saturating_add(add);
        i = i + 1;
    }
    assert(nets@.subrange(0, nets@.len() as int) =~= nets@);
    total
}

/// A stats sample for subscribers: memory use as reported (0 when absent),
/// the limit as reported or else the configured one (0 when none is
/// positive), network counters summed over `(rx, tx)` interfaces, and the
/// channel's state as text.
pub fn build_stats(
    memory_usage: Option<u64>,
    memory_limit: Option<u64>,
    configured_limit: Option<i64>,
    networks: &Vec<(u64, u64)>,
    cpu_absolute_centi: u64,
    uptime_secs: u64,
    state: ContainerRuntimeState,
    disk_bytes: u64,
) -> (r: ContainerStats)
    ensures
        r.memory_bytes == match memory_usage { Some(m) => m, None => 0 },
        r.memory_limit_bytes == match memory_limit {
            Some(l) => l,
            None => match configured_limit { Some(c) => if c > 0 { c as u64 } else { 0 }, None => 0 },
        },
        r.cpu_absolute_centi == cpu_absolute_centi,
        r.network.rx_bytes == capped(counter_total(networks@, true)),
        r.network.tx_bytes == capped(counter_total(networks@, false)),
        r.uptime == uptime_secs,
        r.state@ == state.text(),
        r.disk_bytes == disk_bytes,
{
    let fallback: u64 = match configured_limit {
        Some(c) => if c > 0 { c as u64 } else { 0 },
        None => 0,
    };
    ContainerStats {
        memory_bytes: match memory_usage { Some(m) => m, None => 0 },
        memory_limit_bytes: match memory_limit { Some(l) => l, None => fallback },
        cpu_absolute_centi,
        network: NetworkStats { rx_bytes: sum_counter(networks, true), tx_bytes: sum_counter(networks, false) },
        uptime: uptime_secs,
        state: state.to_string(),
        disk_bytes,
    }
}

} // verus!

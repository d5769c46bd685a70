//! Console filtering: each log line from the runtime is trimmed, checked
//! against the start pattern, and collapsed when it repeats the line
//! before it.

use vstd::prelude::*;
use crate::hub::{
    channel_index, console_views, event_views, has_channel, lemma_channel_index, logged, only_channel_changed,
    pattern_hit, regex_match, regex_verdict, ContainerEventChannel,
    ContainerRuntimeState, EventHub, EventKind, OutboundEvent,
};
use crate::text::{chars_of, decimal, same_text, string_of, trim_end, trim_end_chars};

verus! {

/// The events that start-pattern detection emits.
pub open spec fn started_views() -> Seq<(EventKind, Seq<Seq<char>>)> {
    seq![(EventKind::Event, seq!["running"@]), (EventKind::DaemonMessage, seq!["Server started"@])]
}

/// The hub after a non-blank line `t`: only the channel of `id` changes.
/// A first pattern match (`fires`) sets it running; a repeated line
/// (`dup`) leaves it so, any other line is logged on it.
pub open spec fn console_hub_after(
    before: Seq<(String, ContainerEventChannel)>,
    after: Seq<(String, ContainerEventChannel)>,
    id: Seq<char>,
    t: Seq<char>,
    fires: bool,
    dup: bool,
    channel_verdict: Option<bool>,
) -> bool {
    if !has_channel(before, id) {
        after == before
    } else {
        let i = channel_index(before, id);
        let ch = before[i].1;
        let mid = if fires { ContainerEventChannel { state: ContainerRuntimeState::Running, ..ch } } else { ch };
        &&& only_channel_changed(before, after, i)
        &&& dup ==> after[i].1 == mid
        &&& !dup ==> logged(
            mid,
            after[i].1,
            t,
            mid.state == ContainerRuntimeState::Starting && pattern_hit(t, ch.start_pattern, channel_verdict),
        )
    }
}

/// Counter step that stops at the largest value.
pub open spec fn bumped(n: u32) -> u32 {
    if n < u32::MAX { (n + 1) as u32 } else { n }
}

/// The line-by-line state of one container's log follower.
#[derive(Debug)]
pub struct ConsoleFilter {
    /// Pattern whose first match marks the server as running.
    pub start_pattern: Option<String>,
    /// The last line pushed.
    pub last_line: Option<String>,
    /// How many times `last_line` has been seen in a row.
    pub duplicate_count: u32,
    /// Whether the start pattern has matched already.
    pub pattern_matched: bool,
}

impl ConsoleFilter {
    /// A follower that has seen no line yet.
    pub fn new(start_pattern: Option<String>) -> (r: Self)
        ensures
            r.start_pattern == start_pattern,
            r.last_line.is_none(),
            r.duplicate_count == 0,
            !r.pattern_matched,
    {
        ConsoleFilter { start_pattern, last_line: None, duplicate_count: 0, pattern_matched: false }
    }

    /// Handles one raw log line of the container `internal_id`, given
    /// `verdict`, the regex outcome of this follower's start pattern on the
    /// trimmed line, and `channel_verdict`, that of the channel's own
    /// pattern. Returns the events to broadcast. A line that is blank after
    /// trimming trailing whitespace is dropped. The first pattern match
    /// moves the channel to `Running` and announces it. A line equal to the
    /// previous one only bumps the repeat count, which is announced; any
    /// other line is logged and broadcast through the hub.
    pub fn process_line_with_verdicts(
        &mut self,
        hub: &mut EventHub,
        internal_id: &str,
        raw: &str,
        verdict: Option<bool>,
        channel_verdict: Option<bool>,
    ) -> (r: Vec<OutboundEvent>)
        requires
            old(hub).wf(),
        ensures
            final(hub).wf(),
            trim_end(raw@).len() == 0 ==> r@.len() == 0 && final(self).start_pattern == old(self).start_pattern
                && final(self).last_line == old(self).last_line && final(self).duplicate_count == old(self).duplicate_count
                && final(self).pattern_matched == old(self).pattern_matched && final(hub).slots() == old(hub).slots(),
            trim_end(raw@).len() > 0 ==> {
                let t = trim_end(raw@);
                let fires = !old(self).pattern_matched && old(self).start_pattern.is_some() && verdict == Some(true);
                let dup = old(self).last_line.is_some() && old(self).last_line.unwrap()@ == t;
                &&& final(self).start_pattern == old(self).start_pattern
                &&& final(self).pattern_matched == (old(self).pattern_matched || fires)
                &&& dup ==> final(self).duplicate_count == bumped(old(self).duplicate_count)
                    && final(self).last_line == old(self).last_line
                &&& !dup ==> final(self).duplicate_count == 1 && final(self).last_line.is_some()
                    && final(self).last_line.unwrap()@ == t
                &&& console_hub_after(old(hub).slots(), final(hub).slots(), internal_id@, t, fires, dup, channel_verdict)
                &&& !has_channel(old(hub).slots(), internal_id@) ==> r@.len() == 0
                &&& has_channel(old(hub).slots(), internal_id@) ==> {
                    let ch = old(hub).slots()[channel_index(old(hub).slots(), internal_id@)].1;
                    let state = if fires { ContainerRuntimeState::Running } else { ch.state };
                    let head = if fires { started_views() } else { Seq::empty() };
                    event_views(r@) == head + if dup {
                        seq![(EventKind::ConsoleDuplicate, seq![decimal(bumped(old(self).duplicate_count) as nat)])]
                    } else {
                        console_views(state, ch.start_pattern, t, channel_verdict)
                    }
                }
            },
    {
        let raw_chars = chars_of(raw);
        let trimmed = trim_end_chars(raw_chars.as_slice());
        if trimmed.len() == 0 {
            return Vec::new();
        }
        let line = string_of(trimmed.as_slice());
        let ghost t = trim_end(raw@);
        let ghost hub0 = hub.slots();
        let mut events: Vec<OutboundEvent> = Vec::new();
        let fires = !self.pattern_matched && self.start_pattern.is_some() && matches!(verdict, Some(true));
        if fires {
            self.pattern_matched = true;
            hub.set_state(internal_id, ContainerRuntimeState::Running);
            proof {
                if has_channel(hub0, internal_id@) {
                    let i = channel_index(hub0, internal_id@);
                    assert(hub.slots()[i].0@ == internal_id@);
                    lemma_channel_index(hub.slots(), internal_id@, i);
                }
            }
            let mut a = hub.broadcast_event(internal_id, "running");
            let mut b = hub.broadcast_daemon_message(internal_id, "Server started");
            let ghost va = a@;
            let ghost vb = b@;
            events.append(&mut a);
            events.append(&mut b);
            proof {
                assert(event_views(events@) =~= event_views(va) + event_views(vb));
                if has_channel(hub0, internal_id@) {
                    assert(event_views(events@) =~= started_views());
                }
            }
        } else {
            assert(event_views(events@) =~= Seq::<(EventKind, Seq<Seq<char>>)>::empty());
        }
        let ghost head = events@;
        let ghost hub1 = hub.slots();
        let dup = match &self.last_line {
            Some(l) => same_text(l.as_str(), line.as_str()),
            None => false,
        };
        let mut tail = if dup {
            if self.duplicate_count < u32::MAX {
                self.duplicate_count = self.duplicate_count + 1;
            }
            hub.broadcast_console_duplicate(internal_id, self.duplicate_count)
        } else {
            self.duplicate_count = 1;
            let copy = line.clone();
            self.last_line = Some(line);
            hub.broadcast_console_with_verdict(internal_id, copy.as_str(), channel_verdict)
        };
        let ghost vt = tail@;
        events.append(&mut tail);
        proof {
            assert(event_views(events@) =~= event_views(head) + event_views(vt));
            if !has_channel(hub0, internal_id@) {
                assert(!has_channel(hub1, internal_id@));
            } else {
                let i = channel_index(hub0, internal_id@);
                assert(hub1[i].0@ == internal_id@);
                lemma_channel_index(hub1, internal_id@, i);
                let fin = hub.slots();
                assert(fin[i].0 == hub0[i].0);
                assert forall|k: int| 0 <= k < hub0.len() && k != i implies fin[k] == hub0[k] by {
                    assert(hub1[k] == hub0[k]);
                }
            }
        }
        events
    }

    /// Handles one raw log line; the start patterns are tried as regexes on
    /// the trimmed line. See `process_line_with_verdicts`.
    pub fn process_line(&mut self, hub: &mut EventHub, internal_id: &str, raw: &str) -> (r: Vec<OutboundEvent>)
        requires
            old(hub).wf(),
        ensures
            final(hub).wf(),
            trim_end(raw@).len() == 0 ==> r@.len() == 0,
            trim_end(raw@).len() > 0 ==> {
                let t = trim_end(raw@);
                let verdict = if old(self).start_pattern.is_some() { regex_verdict(old(self).start_pattern.unwrap()@, t) } else { None };
                let fires = !old(self).pattern_matched && old(self).start_pattern.is_some() && verdict == Some(true);
                let dup = old(self).last_line.is_some() && old(self).last_line.unwrap()@ == t;
                &&& final(self).pattern_matched == (old(self).pattern_matched || fires)
                &&& dup ==> final(self).duplicate_count == bumped(old(self).duplicate_count)
                &&& !dup ==> final(self).duplicate_count == 1 && final(self).last_line.is_some()
                    && final(self).last_line.unwrap()@ == t
                &&& console_hub_after(old(hub).slots(), final(hub).slots(), internal_id@, t, fires, dup, {
                    let ch = old(hub).slots()[channel_index(old(hub).slots(), internal_id@)].1;
                    if has_channel(old(hub).slots(), internal_id@) && ch.start_pattern.is_some() {
                        regex_verdict(ch.start_pattern.unwrap()@, t)
                    } else {
                        None
                    }
                })
                &&& !has_channel(old(hub).slots(), internal_id@) ==> r@.len() == 0
                &&& has_channel(old(hub).slots(), internal_id@) ==> {
                    let ch = old(hub).slots()[channel_index(old(hub).slots(), internal_id@)].1;
                    let channel_verdict = if ch.start_pattern.is_some() { regex_verdict(ch.start_pattern.unwrap()@, t) } else { None };
                    let state = if fires { ContainerRuntimeState::Running } else { ch.state };
                    let head = if fires { started_views() } else { Seq::empty() };
                    event_views(r@) == head + if dup {
                        seq![(EventKind::ConsoleDuplicate, seq![decimal(bumped(old(self).duplicate_count) as nat)])]
                    } else {
                        console_views(state, ch.start_pattern, t, channel_verdict)
                    }
                }
            },
    {
        let raw_chars = chars_of(raw);
        let trimmed = trim_end_chars(raw_chars.as_slice());
        let line = string_of(trimmed.as_slice());
        let verdict = match &self.start_pattern {
            Some(p) => regex_match(p.as_str(), line.as_str()),
            None => None,
        };
        let channel_verdict = match hub.get_channel(internal_id) {
            Some(i) => match &hub.channel(i).start_pattern {
                Some(p) => regex_match(p.as_str(), line.as_str()),
                None => None,
            },
            None => None,
        };
        self.process_line_with_verdicts(hub, internal_id, raw, verdict, channel_verdict)
    }
}

} // verus!

use lightd::hub::{
    stats_changed, ContainerEventChannel, ContainerRuntimeState, ContainerStats, EventHub, NetworkStats, OutboundEvent,
};

fn sample(cpu: u64) -> ContainerStats {
    ContainerStats {
        memory_bytes: 100,
        memory_limit_bytes: 1000,
        cpu_absolute_centi: cpu,
        network: NetworkStats { rx_bytes: 0, tx_bytes: 0 },
        uptime: 0,
        state: "running".to_string(),
        disk_bytes: 0,
    }
}

#[test]
fn channel_creation_is_idempotent() {
    let mut h = EventHub::new();
    let (a, first) = h.get_or_create_channel("alpha");
    let (b, again) = h.get_or_create_channel("alpha");
    assert_eq!(a, b);
    assert!(first);
    assert!(!again);
    let (c, _) = h.get_or_create_channel("beta");
    assert_ne!(a, c);
    assert_eq!(h.get_channel("alpha"), Some(a));
    h.remove_channel("alpha");
    assert_eq!(h.get_channel("alpha"), None);
    h.remove_channel("alpha");
}

#[test]
fn small_cpu_changes_are_not_pushed() {
    let mut h = EventHub::new();
    h.get_or_create_channel("alpha");
    assert!(h.broadcast_stats("alpha", sample(1000)));
    assert!(!h.broadcast_stats("alpha", sample(1020)));
    assert!(!h.broadcast_stats("alpha", sample(1000)));
    assert!(h.broadcast_stats("alpha", sample(1080)));
    assert!(!h.broadcast_stats("nobody", sample(1)));
}

#[test]
fn stats_thresholds() {
    let a = sample(0);
    let mut b = sample(50);
    assert!(!stats_changed(&a, &b));
    b.cpu_absolute_centi = 51;
    assert!(stats_changed(&a, &b));
    let mut m = sample(0);
    m.memory_bytes = 100 + 1_048_576;
    assert!(!stats_changed(&a, &m));
    m.memory_bytes += 1;
    assert!(stats_changed(&a, &m));
    let mut n = sample(0);
    n.network.tx_bytes = 10_241;
    assert!(stats_changed(&a, &n));
    let mut s = sample(0);
    s.state = "offline".to_string();
    assert!(stats_changed(&a, &s));
}

#[test]
fn log_ring_keeps_last_thousand() {
    let mut ch = ContainerEventChannel::new();
    for i in 0..1005 {
        ch.add_log(format!("line {}", i));
    }
    assert_eq!(ch.log_buffer.len(), 1000);
    assert_eq!(ch.log_buffer[0], "line 5");
    assert_eq!(ch.get_logs(2), vec!["line 1003".to_string(), "line 1004".to_string()]);
    assert_eq!(ch.get_logs(5000).len(), 1000);
}

#[test]
fn commands_leave_in_order() {
    let mut h = EventHub::new();
    h.get_or_create_channel("alpha");
    assert!(h.send_command("alpha", "say hi".to_string()));
    assert!(h.send_command("alpha", "stop".to_string()));
    assert!(!h.send_command("beta", "x".to_string()));
    assert_eq!(h.next_command("alpha"), Some("say hi".to_string()));
    assert_eq!(h.next_command("alpha"), Some("stop".to_string()));
    assert_eq!(h.next_command("alpha"), None);
}

#[test]
fn helpers_emit_one_event() {
    let mut h = EventHub::new();
    assert!(h.broadcast_event("alpha", "starting").is_empty());
    h.get_or_create_channel("alpha");
    match &h.broadcast_event("alpha", "starting")[0] {
        OutboundEvent::Event(a) => assert_eq!(a, &vec!["starting".to_string()]),
        _ => panic!("wrong kind"),
    }
    match &h.broadcast_daemon_message("alpha", "Container stopped")[0] {
        OutboundEvent::DaemonMessage(a) => assert_eq!(a, &vec!["Container stopped".to_string()]),
        _ => panic!("wrong kind"),
    }
    match &h.broadcast_console_duplicate("alpha", 12)[0] {
        OutboundEvent::ConsoleDuplicate(a) => assert_eq!(a, &vec!["12".to_string()]),
        _ => panic!("wrong kind"),
    }
    h.broadcast_console("alpha", "a");
    h.broadcast_console("alpha", "b");
    match &h.send_logs("alpha", 1)[0] {
        OutboundEvent::Logs(a) => assert_eq!(a, &vec!["b".to_string()]),
        _ => panic!("wrong kind"),
    }
}

#[test]
fn channel_pattern_moves_starting_to_running() {
    let mut h = EventHub::new();
    h.get_or_create_channel("alpha");
    h.set_start_pattern("alpha", Some("Done".to_string()));
    let quiet = h.broadcast_console("alpha", "Done early");
    assert_eq!(quiet.len(), 1);
    h.set_state("alpha", ContainerRuntimeState::Starting);
    let ev = h.broadcast_console("alpha", "Done (1.0s)");
    assert_eq!(ev.len(), 2);
    let i = h.get_channel("alpha").unwrap();
    assert_eq!(h.channel(i).state, ContainerRuntimeState::Running);
    assert_eq!(ContainerRuntimeState::Running.to_string(), "running");
}

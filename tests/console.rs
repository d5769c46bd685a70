use lightd::console::ConsoleFilter;
use lightd::hub::{ContainerRuntimeState, EventHub, OutboundEvent};

fn describe(e: &OutboundEvent) -> (String, Vec<String>) {
    match e {
        OutboundEvent::Stats(a) => ("stats".to_string(), a.clone()),
        OutboundEvent::ConsoleOutput(a) => ("console output".to_string(), a.clone()),
        OutboundEvent::ConsoleDuplicate(a) => ("console duplicate".to_string(), a.clone()),
        OutboundEvent::Event(a) => ("event".to_string(), a.clone()),
        OutboundEvent::DaemonMessage(a) => ("daemon_message".to_string(), a.clone()),
        OutboundEvent::Logs(a) => ("logs".to_string(), a.clone()),
    }
}

#[test]
fn repeated_lines_become_duplicate_counts() {
    let mut h = EventHub::new();
    h.get_or_create_channel("alpha");
    let mut f = ConsoleFilter::new(None);
    let mut out = Vec::new();
    for _ in 0..3 {
        out.extend(f.process_line(&mut h, "alpha", "foo"));
    }
    let seen: Vec<(String, Vec<String>)> = out.iter().map(describe).collect();
    assert_eq!(
        seen,
        vec![
            ("console output".to_string(), vec!["foo".to_string()]),
            ("console duplicate".to_string(), vec!["2".to_string()]),
            ("console duplicate".to_string(), vec!["3".to_string()]),
        ]
    );
}

#[test]
fn start_pattern_marks_running_once() {
    let mut h = EventHub::new();
    h.get_or_create_channel("alpha");
    h.set_state("alpha", ContainerRuntimeState::Starting);
    let mut f = ConsoleFilter::new(Some("Done".to_string()));
    let out = f.process_line(&mut h, "alpha", "Done (12.3s)! For help, type help");
    let seen: Vec<(String, Vec<String>)> = out.iter().map(describe).collect();
    let running = seen.iter().filter(|(k, a)| k == "event" && a == &vec!["running".to_string()]).count();
    assert_eq!(running, 1);
    assert_eq!(seen.last().unwrap().0, "console output");
    let i = h.get_channel("alpha").unwrap();
    assert_eq!(h.channel(i).state, ContainerRuntimeState::Running);
    let again = f.process_line(&mut h, "alpha", "Done (12.3s)! For help, type help again");
    assert!(again.iter().all(|e| describe(e).0 != "event"));
}

#[test]
fn blank_lines_are_dropped_and_trailing_space_trimmed() {
    let mut h = EventHub::new();
    h.get_or_create_channel("alpha");
    let mut f = ConsoleFilter::new(None);
    assert!(f.process_line(&mut h, "alpha", "  \r\n").is_empty());
    let out = f.process_line(&mut h, "alpha", "hello  \n");
    assert_eq!(describe(&out[0]), ("console output".to_string(), vec!["hello".to_string()]));
    let dup = f.process_line(&mut h, "alpha", "hello");
    assert_eq!(describe(&dup[0]), ("console duplicate".to_string(), vec!["2".to_string()]));
}

#[test]
fn invalid_regex_never_matches_in_follower() {
    let mut h = EventHub::new();
    h.get_or_create_channel("alpha");
    h.set_state("alpha", ContainerRuntimeState::Starting);
    let mut f = ConsoleFilter::new(Some("Done(".to_string()));
    let out = f.process_line(&mut h, "alpha", "Done(");
    assert_eq!(out.len(), 1);
    assert!(!f.pattern_matched);
}

use lightd::hub::{ContainerEventChannel, ContainerRuntimeState, EventHub, InboundEvent, OutboundEvent};
use lightd::lifecycle::{container_paths, install_mounts, nano_cpus_from_millicores, port_bindings, PowerAction};
use lightd::session::{handle_inbound_event, next_backoff, uptime};
use lightd::state::PortBinding;

#[test]
fn power_start_announces_starting() {
    let mut h = EventHub::new();
    h.get_or_create_channel("alpha");
    let (events, action) = handle_inbound_event(&mut h, "alpha", &InboundEvent::Power { power: vec!["START".to_string()] });
    assert_eq!(action, Some(PowerAction::Start));
    match &events[0] {
        OutboundEvent::Event(a) => assert_eq!(a, &vec!["starting".to_string()]),
        _ => panic!("wrong kind"),
    }
    let i = h.get_channel("alpha").unwrap();
    assert_eq!(h.channel(i).state, ContainerRuntimeState::Starting);
    let (events, action) = handle_inbound_event(&mut h, "alpha", &InboundEvent::Power { power: vec!["kill".to_string()] });
    assert_eq!(action, Some(PowerAction::Kill));
    assert_eq!(events.len(), 1);
    assert_eq!(h.channel(i).state, ContainerRuntimeState::Stopping);
    let (events, action) = handle_inbound_event(&mut h, "alpha", &InboundEvent::Power { power: vec!["dance".to_string()] });
    assert!(events.is_empty());
    assert_eq!(action, None);
    let (events, action) = handle_inbound_event(&mut h, "alpha", &InboundEvent::Power { power: vec![] });
    assert!(events.is_empty() && action.is_none());
}

#[test]
fn send_command_is_queued_once() {
    let mut h = EventHub::new();
    h.get_or_create_channel("alpha");
    let ev = InboundEvent::SendCommand { send_command: vec!["say hi".to_string()] };
    let (events, action) = handle_inbound_event(&mut h, "alpha", &ev);
    assert!(events.is_empty() && action.is_none());
    assert_eq!(h.next_command("alpha"), Some("say hi".to_string()));
    assert_eq!(h.next_command("alpha"), None);
}

#[test]
fn log_requests_default_to_fifty() {
    let mut h = EventHub::new();
    h.get_or_create_channel("alpha");
    for i in 0..60 {
        h.broadcast_console("alpha", &format!("l{}", i));
    }
    let (events, _) = handle_inbound_event(&mut h, "alpha", &InboundEvent::RequestLogs { logs: vec!["3".to_string()] });
    match &events[0] {
        OutboundEvent::Logs(a) => assert_eq!(a, &vec!["l57".to_string(), "l58".to_string(), "l59".to_string()]),
        _ => panic!("wrong kind"),
    }
    let (events, _) = handle_inbound_event(&mut h, "alpha", &InboundEvent::RequestLogs { logs: vec!["x".to_string()] });
    match &events[0] {
        OutboundEvent::Logs(a) => assert_eq!(a.len(), 50),
        _ => panic!("wrong kind"),
    }
}

#[test]
fn backoff_and_uptime() {
    assert_eq!(next_backoff(100, 2000), 200);
    assert_eq!(next_backoff(1500, 2000), 2000);
    assert_eq!(next_backoff(2000, 2000), 2000);
    let mut ch = ContainerEventChannel::new();
    assert_eq!(uptime(&ch, 50), 0);
    ch.uptime_start = Some(40);
    assert_eq!(uptime(&ch, 50), 10);
    assert_eq!(uptime(&ch, 30), 0);
}

#[test]
fn install_plan() {
    let (vol, data) = container_paths("/srv/lightd", "v1", "alpha");
    assert_eq!(vol, "/srv/lightd/volumes/v1");
    assert_eq!(data, "/srv/lightd/containers/alpha");
    let mounts = install_mounts(&vol, &data, &vec![("/extra".to_string(), "/host/extra".to_string())]);
    assert_eq!(
        mounts,
        vec![
            ("/home/container".to_string(), vol.clone()),
            ("/app/data".to_string(), data.clone()),
            ("/extra".to_string(), "/host/extra".to_string()),
        ]
    );
    let ports = vec![PortBinding { container_port: 25565, host_port: 30001, protocol: "tcp".to_string() }];
    assert_eq!(port_bindings(&ports), vec![("25565/tcp".to_string(), "30001".to_string())]);
    assert_eq!(nano_cpus_from_millicores(1500), 1_500_000_000);
}

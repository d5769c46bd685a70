use lightd::auth::{generate_token, TokenManager};
use lightd::console::ConsoleFilter;
use lightd::hub::{ContainerRuntimeState, EventHub};
use lightd::lifecycle::{
    rebind_step, NetworkEvent, RebindAction, RebindEvent, RebindPhase, install_step, rebind_plan, update_target, InstallAction, InstallEvent, InstallJob, InstallPhase, LifecycleEvent,
    PowerError,
};
use lightd::manager::{ContainerManager, RegistryError};
use lightd::pool::{NetworkPool, NetworkPort, PoolError};
use lightd::session::build_stats;
use lightd::state::{ContainerState, PortBinding};
use lightd::update::ResourceLimits;

fn names(evs: &[LifecycleEvent]) -> Vec<String> {
    evs.iter()
        .map(|e| match e {
            LifecycleEvent::Started(_) => "Started".to_string(),
            LifecycleEvent::CreatingContainer(_) => "CreatingContainer".to_string(),
            LifecycleEvent::ImagePulled(_, _) => "ImagePulled".to_string(),
            LifecycleEvent::ContainerCreated(_, r) => format!("ContainerCreated:{}", r),
            LifecycleEvent::RunningInstallScript(_) => "RunningInstallScript".to_string(),
            LifecycleEvent::InstallScriptComplete(_, c) => format!("InstallScriptComplete:{}", c),
            LifecycleEvent::SettingUpEntrypoint(_) => "SettingUpEntrypoint".to_string(),
            LifecycleEvent::Ready(_) => "Ready".to_string(),
            LifecycleEvent::Error(_, m) => format!("Error:{}", m),
            other => format!("{:?}", other),
        })
        .collect()
}

#[test]
fn install_job_announces_in_order() {
    let mut job = InstallJob::new("alpha".to_string(), "busybox:latest".to_string(), true);
    let mut all = Vec::new();
    let steps = vec![
        InstallEvent::Begin,
        InstallEvent::ImageReady { pulled: true },
        InstallEvent::Created { runtime_id: "R".to_string() },
        InstallEvent::Polled { running: true, exit_code: 0 },
        InstallEvent::Polled { running: false, exit_code: 0 },
        InstallEvent::EntrypointWritten,
    ];
    let mut actions = Vec::new();
    for ev in steps {
        let (next, action, evs) = install_step(&job, ev);
        job = next;
        actions.push(action);
        all.extend(evs);
    }
    assert_eq!(
        names(&all),
        vec![
            "Started", "CreatingContainer", "ImagePulled", "ContainerCreated:R", "RunningInstallScript",
            "InstallScriptComplete:0", "SettingUpEntrypoint", "Ready"
        ]
    );
    assert_eq!(actions[3], InstallAction::WaitAndPoll);
    assert_eq!(actions[5], InstallAction::MarkReadyAndStart);
    assert_eq!(job.phase, InstallPhase::Done);
    assert_eq!(job.runtime_id, Some("R".to_string()));
}

#[test]
fn install_failure_marks_failed() {
    let job = InstallJob::new("alpha".to_string(), "img".to_string(), false);
    let (job, _, _) = install_step(&job, InstallEvent::Begin);
    let (job, action, evs) = install_step(&job, InstallEvent::Failure { message: "pull failed".to_string() });
    assert_eq!(action, InstallAction::MarkFailed("pull failed".to_string()));
    assert_eq!(names(&evs), vec!["Error:pull failed"]);
    let (_, action, evs) = install_step(&job, InstallEvent::Begin);
    assert_eq!(action, InstallAction::Nothing);
    assert!(evs.is_empty());
}

#[test]
fn install_script_times_out_after_ten_minutes() {
    let mut job = InstallJob::new("alpha".to_string(), "img".to_string(), true);
    for ev in vec![InstallEvent::Begin, InstallEvent::ImageReady { pulled: false }, InstallEvent::Created { runtime_id: "R".to_string() }] {
        job = install_step(&job, ev).0;
    }
    let mut polls = 0;
    loop {
        let (next, action, _) = install_step(&job, InstallEvent::Polled { running: true, exit_code: 0 });
        job = next;
        polls += 1;
        if action == InstallAction::StopAndWriteEntrypoint {
            break;
        }
    }
    assert_eq!(polls, 300);
    assert_eq!(job.phase, InstallPhase::Finalizing);
}

#[test]
fn rebind_plan_filters_and_lowercases() {
    let mut s = ContainerState::new("alpha".to_string(), "v1".to_string(), "./run".to_string(), 0);
    s.mount = vec![("/extra".to_string(), "/host".to_string()), (" ".to_string(), "/x".to_string())];
    s.limits.memory = Some(0);
    s.limits.nano_cpus = Some(2_000_000_000);
    let ports = vec![PortBinding { container_port: 25565, host_port: 25567, protocol: "TCP".to_string() }];
    let plan = rebind_plan(&s, &ports, "/srv/volumes", "/srv/containers");
    assert_eq!(plan.name, "lightd-alpha");
    assert_eq!(plan.mounts.len(), 3);
    assert_eq!(plan.mounts[0], ("/home/container".to_string(), "/srv/volumes/v1".to_string()));
    assert_eq!(plan.mounts[1], ("/app/data".to_string(), "/srv/containers/alpha".to_string()));
    assert_eq!(plan.ports, vec![("25565/tcp".to_string(), "25567".to_string())]);
    assert_eq!(plan.memory, None);
    assert_eq!(plan.nano_cpus, Some(2_000_000_000));
}

#[test]
fn resource_update_is_recorded() {
    let mut m = ContainerManager::new();
    m.create_container("alpha".to_string(), "v1".to_string(), "./run".to_string(), 0).unwrap();
    let limits = ResourceLimits {
        memory: Some(8 * 1024 * 1024),
        memory_swap: None,
        memory_reservation: None,
        cpu_shares: None,
        cpu_period: None,
        cpu_quota: None,
        cpuset_cpus: None,
        blkio_weight: None,
    };
    m.update_limits("alpha", &limits, 3).unwrap();
    assert_eq!(m.get_container("alpha").unwrap().limits.memory, Some(8 * 1024 * 1024));
    assert_eq!(m.update_limits("x", &limits, 3).unwrap_err(), RegistryError::NotFound);
    assert_eq!(update_target(None).unwrap_err(), PowerError::NotFound);
    let s = m.get_container("alpha").unwrap();
    assert_eq!(update_target(Some(&s)).unwrap_err(), PowerError::Pending);
    m.mark_ready("alpha", "R9".to_string(), 4).unwrap();
    assert_eq!(m.internal_id_for_runtime("R9"), Some("alpha".to_string()));
    assert_eq!(m.internal_id_for_runtime("R0"), None);
}

#[test]
fn ports_by_drawn_ids() {
    let mut p = NetworkPool::new();
    let a = p.add_port_with_id("id1".to_string(), "0.0.0.0".to_string(), 1, "tcp".to_string(), 5).unwrap();
    assert_eq!(a.id, "id1");
    assert_eq!(
        p.add_port_with_id("id1".to_string(), "0.0.0.0".to_string(), 2, "tcp".to_string(), 5).unwrap_err(),
        PoolError::Conflict
    );
    let entries = vec![
        ("10.0.0.1".to_string(), 30000u16, "tcp".to_string()),
        ("10.0.0.1".to_string(), 30001u16, "udp".to_string()),
        ("10.0.0.1".to_string(), 30002u16, "tcp".to_string()),
    ];
    let ids = vec!["n1".to_string(), "id1".to_string(), "n3".to_string()];
    let added = p.bulk_add_with_ids(&entries, &ids, 6).unwrap();
    assert_eq!(added.iter().map(|x| x.port).collect::<Vec<_>>(), vec![30000, 30002]);
    assert_eq!(added[1].id, "n3");
    let open = NetworkPool::filter_args(&added[0], true);
    assert_eq!(open.join(" "), "-A INPUT -p tcp -d 10.0.0.1 --dport 30000 -j ACCEPT");
    let port: NetworkPort = added[1].clone();
    assert_eq!(NetworkPool::filter_args(&port, false)[0], "-D");
}

#[test]
fn token_insert_refuses_duplicates() {
    let mut m = TokenManager::new();
    let t = generate_token(0, 10, true);
    let same = lightd::auth::TokenData { token: t.token.clone(), ..generate_token(0, 10, true) };
    assert!(m.insert_token(t));
    assert!(!m.insert_token(same));
}

#[test]
fn compiled_pattern_without_match_does_not_start() {
    let mut h = EventHub::new();
    h.get_or_create_channel("alpha");
    h.set_start_pattern("alpha", Some("[INFO] Done".to_string()));
    h.set_state("alpha", ContainerRuntimeState::Starting);
    let ev = h.broadcast_console("alpha", "[INFO] Done");
    assert_eq!(ev.len(), 1);
    let i = h.get_channel("alpha").unwrap();
    assert_eq!(h.channel(i).state, ContainerRuntimeState::Starting);
    h.set_start_pattern("alpha", Some("Done (".to_string()));
    assert_eq!(h.broadcast_console("alpha", "Done (1s)").len(), 2);
    assert_eq!(h.channel(i).state, ContainerRuntimeState::Running);
}

#[test]
fn repeated_line_enters_log_once() {
    let mut h = EventHub::new();
    h.get_or_create_channel("alpha");
    let mut f = ConsoleFilter::new(None);
    for _ in 0..3 {
        f.process_line(&mut h, "alpha", "foo");
    }
    let i = h.get_channel("alpha").unwrap();
    assert_eq!(h.channel(i).log_buffer, vec!["foo".to_string()]);
}

#[test]
fn stats_samples_are_built() {
    let s = build_stats(Some(100), None, Some(2048), &vec![(10, 20), (5, 7)], 1234, 60, ContainerRuntimeState::Running, 0);
    assert_eq!(s.memory_limit_bytes, 2048);
    assert_eq!(s.network.rx_bytes, 15);
    assert_eq!(s.network.tx_bytes, 27);
    assert_eq!(s.state, "running");
    let t = build_stats(None, Some(7), None, &vec![(u64::MAX, 0), (1, 0)], 0, 0, ContainerRuntimeState::Offline, 0);
    assert_eq!(t.memory_bytes, 0);
    assert_eq!(t.memory_limit_bytes, 7);
    assert_eq!(t.network.rx_bytes, u64::MAX);
}

#[test]
fn rebind_job_announces_in_order() {
    let mut phase = RebindPhase::Pending;
    let mut kinds = Vec::new();
    for ev in [RebindEvent::Begin, RebindEvent::Removed, RebindEvent::Created, RebindEvent::Recorded] {
        let (next, _action, evs) = rebind_step(phase, ev, "alpha", "");
        phase = next;
        for e in evs {
            kinds.push(match e {
                NetworkEvent::RebindingStarted(_) => "started",
                NetworkEvent::RemovingOldContainer(_) => "removing",
                NetworkEvent::CreatingNewContainer(_) => "creating",
                NetworkEvent::UpdatingDatabase(_) => "updating",
                NetworkEvent::RebindingComplete(_) => "complete",
                NetworkEvent::Error(_, _) => "error",
            });
        }
    }
    assert_eq!(kinds, vec!["started", "removing", "creating", "updating", "complete"]);
    assert_eq!(phase, RebindPhase::Done);
    let (p, a, evs) = rebind_step(RebindPhase::Creating, RebindEvent::Failure, "alpha", "timeout");
    assert_eq!(p, RebindPhase::Failed);
    assert_eq!(a, RebindAction::ReportError);
    match &evs[0] {
        NetworkEvent::Error(id, m) => assert_eq!((id.as_str(), m.as_str()), ("alpha", "timeout")),
        _ => panic!("expected an error"),
    }
}

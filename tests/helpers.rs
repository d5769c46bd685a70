use lightd::auth::{
    check_token, generate_token, is_origin_allowed, parse_ttl, validate_api_token, validate_bearer_token, validate_vendor, TokenCheck, TokenManager,
    TokenData,
};
use lightd::fileinfo::{format_mode, mimetype_from_extension};
use lightd::lifecycle::{
    repair_events, LifecycleEvent, container_name, cpu_percent_centi, escape_single_quotes, final_entrypoint, parse_power_action, power_target,
    validate_rebind, verify_sync, PowerAction, PowerError, RebindError,
};
use lightd::remote::{is_healthy, HealthResponse};
use lightd::servers::{format_timestamp, page_bounds, truncate};
use lightd::sftp::normalize_requested_path;
use lightd::state::{ContainerState, InstallState, PortBinding};
use lightd::user::{ContainerUser, UserManager};
use lightd::volume::{QuotaManager, Volume};

#[test]
fn ttl_suffixes() {
    assert_eq!(parse_ttl("30m"), Ok(1800));
    assert_eq!(parse_ttl(" 2h "), Ok(7200));
    assert_eq!(parse_ttl("45s"), Ok(45));
    assert_eq!(parse_ttl("90"), Ok(90));
    assert!(parse_ttl("abc").is_err());
    assert!(parse_ttl("m").is_err());
    assert!(parse_ttl("").is_err());
    assert!(parse_ttl("18446744073709551615m").is_err());
}

#[test]
fn bearer_and_origin_checks() {
    let token = "lightd_0123456789abcdef";
    assert!(validate_bearer_token(Some("Bearer lightd_0123456789abcdef"), token));
    assert!(!validate_bearer_token(Some("Bearer other"), token));
    assert!(!validate_bearer_token(Some("lightd_0123456789abcdef"), token));
    assert!(!validate_bearer_token(None, token));
    assert!(!validate_bearer_token(Some("Bearer x"), "x"));
    let any = vec!["*".to_string()];
    let some = vec!["https://a.example".to_string()];
    assert!(is_origin_allowed(None, &some));
    assert!(is_origin_allowed(Some("https://b.example"), &any));
    assert!(is_origin_allowed(Some("https://a.example"), &some));
    assert!(!is_origin_allowed(Some("https://b.example"), &some));
    assert!(validate_api_token("lightd_0123456789abcd"));
    assert!(!validate_api_token("lightd_short"));
    assert!(!validate_api_token("token_0123456789abcdefgh"));
}

#[test]
fn one_shot_tokens() {
    let t = generate_token(100, 60, true);
    assert!(t.token.starts_with("lightd_"));
    assert_eq!(t.expires_at, 160);
    assert_eq!(check_token(&t, 161, true), TokenCheck::Expired);
    assert_eq!(check_token(&t, 150, false), TokenCheck::Valid);
    assert_eq!(check_token(&t, 150, true), TokenCheck::Consumed);
    let used = TokenData { used: true, ..t };
    assert_eq!(check_token(&used, 150, true), TokenCheck::AlreadyUsed);
    assert!(TokenCheck::Consumed.accepted());
    assert!(TokenCheck::Consumed.removes_record());
    assert!(!TokenCheck::Valid.removes_record());
}

#[test]
fn listing_text() {
    assert_eq!(format_timestamp(1000, 1030), "Just now");
    assert_eq!(format_timestamp(1000, 1000 + 150), "2 minutes ago");
    assert_eq!(format_timestamp(0, 7200), "2 hours ago");
    assert_eq!(format_timestamp(0, 3 * 86400 + 5), "3 days ago");
    assert_eq!(format_timestamp(500, 10), "Just now");
    assert_eq!(truncate("short", 10), "short");
    assert_eq!(truncate("abcdefghijkl", 8), "abcde...");
}

#[test]
fn file_info_text() {
    assert_eq!(format_mode(0o100644), "-rw-r--r--");
    assert_eq!(format_mode(0o040755), "drwxr-xr-x");
    assert_eq!(format_mode(0o120777), "lrwxrwxrwx");
    assert_eq!(mimetype_from_extension("world/level.DAT"), "application/octet-stream");
    assert_eq!(mimetype_from_extension("plugins/config.YML"), "application/x-yaml");
    assert_eq!(mimetype_from_extension("a.b/server.properties.json"), "application/json");
    assert_eq!(mimetype_from_extension(".bashrc"), "application/octet-stream");
    assert_eq!(mimetype_from_extension("logs/latest.log"), "text/plain");
}

#[test]
fn user_volume_and_quota() {
    let u = ContainerUser::default();
    assert_eq!(u.username, "lightd+");
    assert_eq!(UserManager::get_docker_user_string(&u), "1000:1000");
    let v = Volume::new("/srv/volumes", 9);
    assert_eq!(v.get_path(), format!("/srv/volumes/{}", v.id));
    assert_eq!(v.id.len(), 36);
    let q = QuotaManager::new("/srv/q".to_string());
    assert_eq!(q.volume_path("v1"), "/srv/q/v1");
    assert_eq!(QuotaManager::quota_size(None), 1024);
    assert_eq!(QuotaManager::quota_size(Some(5)), 5);
    assert!(QuotaManager::quota_exceeded(6, 5));
}

#[test]
fn entrypoint_escapes_quotes() {
    assert_eq!(escape_single_quotes("echo 'hi'"), "echo '\\''hi'\\''");
    assert_eq!(
        final_entrypoint("java -jar 'server.jar'"),
        "#!/bin/sh\ncd /home/container\nexec sh -c 'java -jar '\\''server.jar'\\'''\n"
    );
    assert_eq!(container_name("alpha"), "lightd-alpha");
}

#[test]
fn power_and_sync_decisions() {
    assert_eq!(parse_power_action("kill"), Some(PowerAction::Kill));
    assert_eq!(parse_power_action("stop"), None);
    let mut s = ContainerState::new("a".to_string(), "v".to_string(), "c".to_string(), 0);
    assert_eq!(power_target(None).unwrap_err(), PowerError::NotFound);
    assert_eq!(power_target(Some(&s)).unwrap_err(), PowerError::Pending);
    assert!(verify_sync(&s, false));
    s.install_state = InstallState::Ready;
    assert!(!verify_sync(&s, true));
    s.container_id = Some("R".to_string());
    assert_eq!(power_target(Some(&s)).unwrap(), "R");
    assert!(!verify_sync(&s, false));
    assert!(verify_sync(&s, true));
}

#[test]
fn rebind_requests_are_checked() {
    let good = vec![PortBinding { container_port: 25565, host_port: 25567, protocol: "TCP".to_string() }];
    assert!(validate_rebind("alpha", "busybox:latest", &good, false).is_ok());
    assert_eq!(validate_rebind("alpha", "busybox:latest", &good, true).unwrap_err(), RebindError::Installing);
    assert_eq!(validate_rebind(" ", "img", &good, false).unwrap_err(), RebindError::EmptyInternalId);
    assert_eq!(validate_rebind("a", "", &good, false).unwrap_err(), RebindError::EmptyImage);
    let zero = vec![PortBinding { container_port: 0, host_port: 1, protocol: "tcp".to_string() }];
    assert_eq!(validate_rebind("a", "i", &zero, false).unwrap_err(), RebindError::ZeroContainerPort(0));
    let zero_host = vec![PortBinding { container_port: 1, host_port: 0, protocol: "tcp".to_string() }];
    assert_eq!(validate_rebind("a", "i", &zero_host, false).unwrap_err(), RebindError::ZeroHostPort(0));
    let bad = vec![PortBinding { container_port: 1, host_port: 1, protocol: "sctp".to_string() }];
    assert_eq!(validate_rebind("a", "i", &bad, false).unwrap_err(), RebindError::BadProtocol(0));
}

#[test]
fn cpu_percentage() {
    assert_eq!(cpu_percent_centi(50, 100, 2), 10000);
    assert_eq!(cpu_percent_centi(1, 3, 1), 3333);
    assert_eq!(cpu_percent_centi(2, 3, 1), 6667);
    assert_eq!(cpu_percent_centi(0, 100, 4), 0);
    assert_eq!(cpu_percent_centi(10, -5, 4), 0);
}

#[test]
fn health_answer() {
    let h = HealthResponse { status: 200, endpoint: "active".to_string() };
    assert!(is_healthy(true, &h));
    assert!(!is_healthy(false, &h));
    let down = HealthResponse { status: 200, endpoint: "maintenance".to_string() };
    assert!(!is_healthy(true, &down));
}

#[test]
fn listing_pages() {
    assert_eq!(page_bounds(12, 1), (1, 3, 0, 5));
    assert_eq!(page_bounds(12, 3), (3, 3, 10, 12));
    assert_eq!(page_bounds(12, 9), (3, 3, 10, 12));
    assert_eq!(page_bounds(12, -4), (1, 3, 0, 5));
    assert_eq!(page_bounds(5, 2), (1, 1, 0, 5));
}

#[test]
fn repair_only_when_unhealthy() {
    assert!(repair_events("beta", (true, None)).is_none());
    match repair_events("beta", (false, Some("Container stuck in installing state".to_string()))) {
        Some((LifecycleEvent::CorruptionDetected(id, issue), LifecycleEvent::RepairStarted(id2))) => {
            assert_eq!(id, "beta");
            assert_eq!(issue, "Container stuck in installing state");
            assert_eq!(id2, "beta");
        }
        _ => panic!("expected a repair"),
    }
    match repair_events("beta", (false, None)) {
        Some((LifecycleEvent::CorruptionDetected(_, issue), _)) => assert_eq!(issue, "Unknown issue"),
        _ => panic!("expected a repair"),
    }
}

#[test]
fn sftp_request_paths() {
    assert_eq!(normalize_requested_path(Some("vol1"), "/"), ".");
    assert_eq!(normalize_requested_path(Some("vol1"), "//vol1"), ".");
    assert_eq!(normalize_requested_path(Some("vol1"), "/vol1//plugins/a.jar"), "plugins/a.jar");
    assert_eq!(normalize_requested_path(Some("vol1"), "/vol10/a"), "vol10/a");
    assert_eq!(normalize_requested_path(None, "/world/level.dat"), "world/level.dat");
}

#[test]
fn vendor_header() {
    assert!(validate_vendor(Some("Application/vnd.pkglat+json")));
    assert!(!validate_vendor(Some("application/json")));
    assert!(!validate_vendor(None));
}

#[test]
fn one_shot_token_store() {
    let mut m = TokenManager::new();
    let t = m.generate_token(100, 60, true).unwrap();
    assert!(t.starts_with("lightd_"));
    assert_eq!(t.len(), 7 + 32);
    assert!(m.validate_token(&t, false, 120));
    assert!(m.validate_token(&t, true, 120));
    assert!(!m.validate_token(&t, true, 121));
    let keep = m.generate_token(100, 1000, false).unwrap();
    let old = m.generate_token(0, 10, false).unwrap();
    assert!(!m.validate_token(&old, false, 50));
    let stale = m.generate_token(0, 10, false).unwrap();
    assert_eq!(m.cleanup_expired(50), 1);
    assert!(m.validate_token(&keep, true, 50));
    assert!(!m.validate_token(&stale, false, 5));
    assert!(!m.validate_token("lightd_unknown", false, 0));
}

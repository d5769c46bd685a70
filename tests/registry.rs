use lightd::manager::{ContainerManager, RegistryError};
use lightd::state::{ContainerState, InstallState, PortBinding};

fn registry_with(id: &str, now: u64) -> ContainerManager {
    let mut m = ContainerManager::new();
    m.create_container(id.to_string(), "v1".to_string(), "./run".to_string(), now).unwrap();
    m
}

#[test]
fn create_starts_installing_without_runtime() {
    let mut m = ContainerManager::new();
    let s = m.create_container("alpha".to_string(), "v1".to_string(), "./run".to_string(), 100).unwrap();
    assert_eq!(s.install_state, InstallState::Installing);
    assert!(s.is_installing);
    assert!(s.container_id.is_none());
    assert_eq!(s.created_at, 100);
    assert_eq!(s.updated_at, 100);
}

#[test]
fn create_then_get_returns_the_record() {
    let mut m = ContainerManager::new();
    let created = m.create_container("alpha".to_string(), "v1".to_string(), "./run".to_string(), 100).unwrap();
    let got = m.get_container("alpha").unwrap();
    assert_eq!(got.internal_id, created.internal_id);
    assert_eq!(got.volume_id, "v1");
    assert_eq!(got.startup_command, "./run");
    assert_eq!(got.install_state, created.install_state);
    assert_eq!(got.container_id, created.container_id);
    assert_eq!(got.ports.len(), 0);
}

#[test]
fn create_twice_conflicts() {
    let mut m = registry_with("alpha", 1);
    let r = m.create_container("alpha".to_string(), "v2".to_string(), "x".to_string(), 2);
    assert_eq!(r.unwrap_err(), RegistryError::Conflict);
    assert_eq!(m.list_containers().len(), 1);
}

#[test]
fn reinstall_then_ready_validates_healthy() {
    let mut m = registry_with("alpha", 1);
    let s = m.mark_installing("alpha", 5).unwrap();
    assert!(s.container_id.is_none());
    m.mark_ready("alpha", "R1".to_string(), 6).unwrap();
    assert_eq!(m.validate_container("alpha", 7).unwrap(), (true, None));
    let got = m.get_container("alpha").unwrap();
    assert_eq!(got.install_state, InstallState::Ready);
    assert_eq!(got.container_id, Some("R1".to_string()));
}

#[test]
fn mark_installing_clears_runtime_id() {
    let mut m = registry_with("alpha", 1);
    m.mark_ready("alpha", "R1".to_string(), 2).unwrap();
    let s = m.mark_installing("alpha", 3).unwrap();
    assert_eq!(s.container_id, None);
    assert_eq!(s.install_state, InstallState::Installing);
    assert_eq!(s.updated_at, 3);
}

#[test]
fn stuck_install_is_reported() {
    let m = registry_with("beta", 1000);
    let (healthy, issue) = m.validate_container("beta", 1700).unwrap();
    assert!(!healthy);
    assert_eq!(issue.unwrap(), "Container stuck in installing state");
    assert_eq!(m.validate_container("beta", 1600).unwrap(), (true, None));
}

#[test]
fn several_issues_are_joined() {
    let mut m = ContainerManager::new();
    m.create_container("gamma".to_string(), "".to_string(), "".to_string(), 0).unwrap();
    let (healthy, issue) = m.validate_container("gamma", 10).unwrap();
    assert!(!healthy);
    assert_eq!(issue.unwrap(), "Container has empty volume_id; Container has empty startup_command");
}

#[test]
fn missing_records_are_not_found() {
    let mut m = ContainerManager::new();
    assert_eq!(m.validate_container("x", 0).unwrap_err(), RegistryError::NotFound);
    assert_eq!(m.mark_ready("x", "r".to_string(), 0).unwrap_err(), RegistryError::NotFound);
    assert_eq!(m.mark_failed("x", "boom", 0).unwrap_err(), RegistryError::NotFound);
    assert_eq!(m.delete_container("x").unwrap_err(), RegistryError::NotFound);
    assert!(m.get_container("x").is_none());
}

#[test]
fn failed_and_updates_are_recorded() {
    let mut m = registry_with("alpha", 1);
    m.mark_failed("alpha", "pull failed", 4).unwrap();
    let s = m.get_container("alpha").unwrap();
    assert_eq!(s.install_state, InstallState::Failed);
    assert!(!s.is_installing);
    m.update_startup_command("alpha", "./start.sh".to_string(), 5).unwrap();
    m.update_start_pattern("alpha", Some("Done".to_string()), 6).unwrap();
    let s = m.get_container("alpha").unwrap();
    assert_eq!(s.startup_command, "./start.sh");
    assert_eq!(s.start_pattern, Some("Done".to_string()));
    assert_eq!(s.updated_at, 6);
}

#[test]
fn update_refuses_ready_without_runtime() {
    let mut m = registry_with("alpha", 1);
    let mut s = m.get_container("alpha").unwrap();
    s.install_state = InstallState::Ready;
    s.is_installing = false;
    assert_eq!(m.update_container(s, 9).unwrap_err(), RegistryError::Corrupt);
    let mut s = m.get_container("alpha").unwrap();
    s.ports.push(PortBinding { container_port: 25565, host_port: 25567, protocol: "tcp".to_string() });
    m.update_container(s, 9).unwrap();
    let got = m.get_container("alpha").unwrap();
    assert_eq!(got.ports[0].host_port, 25567);
    assert_eq!(got.updated_at, 9);
}

#[test]
fn delete_removes_the_record() {
    let mut m = registry_with("alpha", 1);
    let s = m.delete_container("alpha").unwrap();
    assert_eq!(s.internal_id, "alpha");
    assert!(m.get_container("alpha").is_none());
    assert_eq!(m.list_containers().len(), 0);
}

#[test]
fn fresh_state_is_installing() {
    let s = ContainerState::new("a".to_string(), "v".to_string(), "c".to_string(), 42);
    assert_eq!(s.install_state, InstallState::Installing);
    assert_eq!(s.validate(43), (true, None));
}

#[test]
fn rebind_keeps_ready_state() {
    let mut m = registry_with("alpha", 1);
    m.mark_ready("alpha", "R1".to_string(), 2).unwrap();
    let ports = vec![PortBinding { container_port: 25565, host_port: 25567, protocol: "tcp".to_string() }];
    m.update_network("alpha", ports, "R2".to_string(), 3).unwrap();
    let s = m.get_container("alpha").unwrap();
    assert_eq!(s.ports[0].host_port, 25567);
    assert_eq!(s.container_id, Some("R2".to_string()));
    assert_eq!(s.install_state, InstallState::Ready);
    assert_eq!(m.update_network("nope", vec![], "R".to_string(), 3).unwrap_err(), RegistryError::NotFound);
}

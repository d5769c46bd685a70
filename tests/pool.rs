use lightd::firewall::{FirewallAction, FirewallRule, Protocol};
use lightd::node::{AssignError, CreateError, Node};
use lightd::pool::{default_protocol, NetworkPool, PoolError};

fn entries(n: usize) -> Vec<(String, u16, String)> {
    (0..n).map(|i| ("10.0.0.1".to_string(), 20000 + i as u16, "tcp".to_string())).collect()
}

#[test]
fn bulk_add_of_fifty_is_accepted() {
    let mut p = NetworkPool::new();
    let added = p.bulk_add(entries(50), 7).unwrap();
    assert_eq!(added.len(), 50);
    assert_eq!(p.get_all_ports().len(), 50);
    assert!(added.iter().all(|x| !x.in_use && x.created_at == 7));
}

#[test]
fn bulk_add_of_fifty_one_is_refused() {
    let mut p = NetworkPool::new();
    assert_eq!(p.bulk_add(entries(51), 7).unwrap_err(), PoolError::TooMany);
    assert_eq!(p.get_all_ports().len(), 0);
}

#[test]
fn add_defaults_to_tcp() {
    let mut p = NetworkPool::new();
    let a = p.add_port("0.0.0.0".to_string(), 25565, None, 1).unwrap();
    assert_eq!(a.protocol, "tcp");
    assert_eq!(default_protocol(), "tcp");
    let b = p.add_port("0.0.0.0".to_string(), 25566, Some("udp".to_string()), 1).unwrap();
    assert_eq!(b.protocol, "udp");
    assert_ne!(a.id, b.id);
    assert_eq!(p.get_port(&a.id).unwrap().port, 25565);
}

#[test]
fn taking_a_held_port_conflicts() {
    let mut p = NetworkPool::new();
    let a = p.add_port("0.0.0.0".to_string(), 25565, None, 1).unwrap();
    let held = p.mark_in_use(&a.id, true).unwrap();
    assert!(held.in_use);
    assert_eq!(p.mark_in_use(&a.id, true).unwrap_err(), PoolError::Conflict);
    assert!(p.get_random_available().is_none());
    p.return_port_to_pool(&a.id).unwrap();
    assert_eq!(p.get_random_available().unwrap().id, a.id);
}

#[test]
fn same_endpoint_cannot_be_held_twice() {
    let mut p = NetworkPool::new();
    let a = p.add_port("0.0.0.0".to_string(), 25565, None, 1).unwrap();
    let b = p.add_port("0.0.0.0".to_string(), 25565, None, 1).unwrap();
    p.mark_in_use(&a.id, true).unwrap();
    assert_eq!(p.mark_in_use(&b.id, true).unwrap_err(), PoolError::Conflict);
}

#[test]
fn available_ports_are_the_free_ones() {
    let mut p = NetworkPool::new();
    let a = p.add_port("0.0.0.0".to_string(), 1, None, 1).unwrap();
    let b = p.add_port("0.0.0.0".to_string(), 2, None, 1).unwrap();
    p.mark_in_use(&a.id, true).unwrap();
    let free = p.get_available_ports();
    assert_eq!(free.len(), 1);
    assert_eq!(free[0].id, b.id);
}

#[test]
fn delete_and_bulk_delete() {
    let mut p = NetworkPool::new();
    let a = p.add_port("0.0.0.0".to_string(), 1, None, 1).unwrap();
    let b = p.add_port("0.0.0.0".to_string(), 2, None, 1).unwrap();
    assert_eq!(p.delete_port(&a.id).unwrap().port, 1);
    assert_eq!(p.delete_port(&a.id).unwrap_err(), PoolError::NotFound);
    let gone = p.bulk_delete(vec![a.id.clone(), b.id.clone()]);
    assert_eq!(gone, vec![b.id.clone()]);
    assert_eq!(p.get_all_ports().len(), 0);
    assert_eq!(p.mark_in_use("nope", true).unwrap_err(), PoolError::NotFound);
}

#[test]
fn second_allocation_of_single_port_is_exhausted() {
    let mut n = Node::new();
    n.pool.add_port("0.0.0.0".to_string(), 25565, None, 1).unwrap();
    let req = vec![(25565u16, "tcp".to_string())];
    let first = n.assign_ports(&req).unwrap();
    assert_eq!(first.len(), 1);
    assert_eq!(first[0].host_port, 25565);
    assert_eq!(first[0].container_port, 25565);
    assert_eq!(n.assign_ports(&req).unwrap_err(), AssignError::Exhausted);
}

#[test]
fn failed_assignment_returns_taken_ports() {
    let mut n = Node::new();
    n.pool.add_port("0.0.0.0".to_string(), 30000, None, 1).unwrap();
    let req = vec![(1u16, "tcp".to_string()), (2u16, "tcp".to_string())];
    assert_eq!(n.assign_ports(&req).unwrap_err(), AssignError::Exhausted);
    assert_eq!(n.pool.get_available_ports().len(), 1);
}

#[test]
fn delete_container_frees_ports_and_rules() {
    let mut n = Node::new();
    let port = n.pool.add_port("0.0.0.0".to_string(), 25565, None, 1).unwrap();
    n.registry.create_container("alpha".to_string(), "v1".to_string(), "./run".to_string(), 1).unwrap();
    let bindings = n.assign_ports(&vec![(25565u16, "tcp".to_string())]).unwrap();
    let mut s = n.registry.get_container("alpha").unwrap();
    s.ports = bindings;
    n.registry.update_container(s, 2).unwrap();
    let rule = FirewallRule {
        id: "r1".to_string(),
        container_id: "alpha".to_string(),
        source_ip: None,
        source_port: None,
        dest_port: Some(25565),
        protocol: Protocol::Tcp,
        action: FirewallAction::Accept,
        rate_limit: None,
        description: None,
        enabled: true,
    };
    n.firewall.add_rule(rule).unwrap();
    assert!(n.pool.get_port(&port.id).unwrap().in_use);
    let (state, cmds) = n.delete_container("alpha").unwrap();
    assert_eq!(state.internal_id, "alpha");
    assert!(!n.pool.get_port(&port.id).unwrap().in_use);
    assert_eq!(n.firewall.get_container_rules("alpha").len(), 0);
    assert_eq!(cmds.len(), 3);
    assert_eq!(cmds[2], vec!["-X".to_string(), "LIGHTD-ALPHA".to_string()]);
    assert!(n.registry.get_container("alpha").is_none());
}

#[test]
fn only_one_creation_gets_the_last_port() {
    let mut n = Node::new();
    n.pool.add_port("0.0.0.0".to_string(), 25565, None, 1).unwrap();
    let req = vec![(25565u16, "tcp".to_string())];
    let a = n
        .create_container("alpha".to_string(), "v1".to_string(), "./run".to_string(), Some("Done".to_string()), &req, 5)
        .unwrap();
    assert_eq!(a.ports.len(), 1);
    assert_eq!(a.ports[0].host_port, 25565);
    assert_eq!(a.start_pattern, Some("Done".to_string()));
    let b = n.create_container("beta".to_string(), "v2".to_string(), "./run".to_string(), None, &req, 5);
    assert_eq!(b.unwrap_err(), CreateError::NoPorts);
    assert!(n.registry.get_container("beta").is_none());
    let again = n.create_container("alpha".to_string(), "v1".to_string(), "./run".to_string(), None, &vec![], 6);
    assert_eq!(again.unwrap_err(), CreateError::Conflict);
}

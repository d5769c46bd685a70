use lightd::firewall::{
    chain_name, ddos_commands, iptables_rule_args, validate_rule, DDoSProtection, FirewallAction, FirewallError,
    FirewallManager, FirewallRule, Protocol, RateLimit, RuleError,
};

fn rule(id: &str, container: &str) -> FirewallRule {
    FirewallRule {
        id: id.to_string(),
        container_id: container.to_string(),
        source_ip: Some("1.2.3.4".to_string()),
        source_port: None,
        dest_port: Some(25565),
        protocol: Protocol::Tcp,
        action: FirewallAction::Drop,
        rate_limit: Some(RateLimit { requests: 10, per_seconds: 1 }),
        description: None,
        enabled: true,
    }
}

fn words(v: &[&str]) -> Vec<String> {
    v.iter().map(|s| s.to_string()).collect()
}

#[test]
fn chain_name_is_upper_case() {
    assert_eq!(chain_name("alpha-1"), "LIGHTD-ALPHA-1");
}

#[test]
fn rule_compiles_to_arguments() {
    let r = rule("r1", "alpha");
    assert_eq!(
        iptables_rule_args(&r, true, "LIGHTD-ALPHA"),
        words(&["-A", "LIGHTD-ALPHA", "-p", "tcp", "-s", "1.2.3.4", "--dport", "25565", "-m", "limit", "--limit", "10/1", "-j", "DROP"])
    );
    let mut all = rule("r2", "alpha");
    all.protocol = Protocol::All;
    all.source_ip = None;
    all.rate_limit = None;
    all.source_port = Some(53);
    all.dest_port = None;
    all.action = FirewallAction::Reject;
    assert_eq!(
        iptables_rule_args(&all, false, "C"),
        words(&["-D", "C", "--sport", "53", "-j", "REJECT"])
    );
}

#[test]
fn invalid_rules_are_refused() {
    let mut r = rule("r", "");
    assert_eq!(validate_rule(&r).unwrap_err(), RuleError::EmptyContainerId);
    r.container_id = "a".to_string();
    r.source_port = Some(0);
    assert_eq!(validate_rule(&r).unwrap_err(), RuleError::InvalidSourcePort);
    r.source_port = None;
    r.dest_port = Some(0);
    assert_eq!(validate_rule(&r).unwrap_err(), RuleError::InvalidDestinationPort);
    r.dest_port = None;
    r.rate_limit = Some(RateLimit { requests: 0, per_seconds: 1 });
    assert_eq!(validate_rule(&r).unwrap_err(), RuleError::InvalidRateLimit);
    let mut f = FirewallManager::new();
    assert_eq!(f.add_rule(r).unwrap_err(), FirewallError::Invalid(RuleError::InvalidRateLimit));
}

#[test]
fn add_toggle_toggle_remove_leaves_nothing() {
    let mut f = FirewallManager::new();
    let add = f.add_rule(rule("r1", "alpha")).unwrap();
    assert_eq!(add.len(), 2);
    assert_eq!(add[0], words(&["-N", "LIGHTD-ALPHA"]));
    assert_eq!(add[1][0], "-A");
    let off = f.toggle_rule("r1", false).unwrap();
    assert_eq!(off.len(), 1);
    assert_eq!(off[0][0], "-D");
    assert_eq!(f.toggle_rule("r1", false).unwrap().len(), 0);
    let on = f.toggle_rule("r1", true).unwrap();
    assert_eq!(on.len(), 2);
    let gone = f.remove_rule("r1").unwrap();
    assert_eq!(gone.len(), 1);
    assert_eq!(f.get_container_rules("alpha").len(), 0);
    assert_eq!(f.remove_rule("r1").unwrap_err(), FirewallError::NotFound);
    assert_eq!(f.toggle_rule("r1", true).unwrap_err(), FirewallError::NotFound);
}

#[test]
fn duplicate_rule_id_conflicts() {
    let mut f = FirewallManager::new();
    f.add_rule(rule("r1", "alpha")).unwrap();
    assert_eq!(f.add_rule(rule("r1", "beta")).unwrap_err(), FirewallError::Conflict);
}

#[test]
fn disabled_rule_needs_no_commands() {
    let mut f = FirewallManager::new();
    let mut r = rule("r1", "alpha");
    r.enabled = false;
    assert_eq!(f.add_rule(r).unwrap().len(), 0);
    assert_eq!(f.remove_rule("r1").unwrap().len(), 0);
}

#[test]
fn cleanup_removes_only_that_container() {
    let mut f = FirewallManager::new();
    f.add_rule(rule("r1", "alpha")).unwrap();
    f.add_rule(rule("r2", "beta")).unwrap();
    let mut off = rule("r3", "alpha");
    off.enabled = false;
    f.add_rule(off).unwrap();
    let cmds = f.cleanup_container_rules("alpha");
    assert_eq!(cmds.len(), 3);
    assert_eq!(cmds[0][0], "-D");
    assert_eq!(cmds[1], words(&["-F", "LIGHTD-ALPHA"]));
    assert_eq!(cmds[2], words(&["-X", "LIGHTD-ALPHA"]));
    assert_eq!(f.get_container_rules("alpha").len(), 0);
    assert_eq!(f.get_container_rules("beta").len(), 1);
}

#[test]
fn ddos_profile_commands() {
    let p = DDoSProtection {
        enabled: true,
        syn_flood_protection: true,
        connection_limit: Some(50),
        rate_limit: Some(RateLimit { requests: 100, per_seconds: 1 }),
    };
    let cmds = ddos_commands("alpha", p);
    assert_eq!(cmds.len(), 8);
    assert_eq!(cmds[0], words(&["-N", "LIGHTD-SYN-lightd-net-alpha"]));
    assert_eq!(
        cmds[1],
        words(&["-A", "LIGHTD-SYN-lightd-net-alpha", "-p", "tcp", "--syn", "-m", "limit", "--limit", "10/s", "--limit-burst", "20", "-j", "ACCEPT"])
    );
    assert_eq!(
        cmds[4],
        words(&["-A", "LIGHTD-CONN-lightd-net-alpha", "-p", "tcp", "-m", "connlimit", "--connlimit-above", "50", "-j", "REJECT", "--reject-with", "tcp-reset"])
    );
    assert_eq!(cmds[7], words(&["-A", "LIGHTD-RATE-lightd-net-alpha", "-j", "DROP"]));
    let off = DDoSProtection { enabled: false, ..p };
    assert_eq!(ddos_commands("alpha", off).len(), 0);
}

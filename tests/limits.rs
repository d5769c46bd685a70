use lightd::update::{validate_resource_limits, validate_volumes, LimitError, ResourceLimits, VolumeError};

fn none() -> ResourceLimits {
    ResourceLimits {
        memory: None,
        memory_swap: None,
        memory_reservation: None,
        cpu_shares: None,
        cpu_period: None,
        cpu_quota: None,
        cpuset_cpus: None,
        blkio_weight: None,
    }
}

#[test]
fn memory_boundary() {
    let mut l = none();
    l.memory = Some(4 * 1024 * 1024 - 1);
    assert_eq!(validate_resource_limits(&l).unwrap_err(), LimitError::MemoryTooSmall);
    l.memory = Some(4 * 1024 * 1024);
    assert!(validate_resource_limits(&l).is_ok());
    l.memory = Some(1024 * 1024 * 1024 * 1024);
    assert!(validate_resource_limits(&l).is_ok());
    l.memory = Some(1024 * 1024 * 1024 * 1024 + 1);
    assert_eq!(validate_resource_limits(&l).unwrap_err(), LimitError::MemoryTooLarge);
}

#[test]
fn cpu_shares_boundary() {
    let mut l = none();
    l.cpu_shares = Some(1);
    assert_eq!(validate_resource_limits(&l).unwrap_err(), LimitError::CpuSharesOutOfRange);
    l.cpu_shares = Some(2);
    assert!(validate_resource_limits(&l).is_ok());
    l.cpu_shares = Some(262144);
    assert!(validate_resource_limits(&l).is_ok());
    l.cpu_shares = Some(262145);
    assert_eq!(validate_resource_limits(&l).unwrap_err(), LimitError::CpuSharesOutOfRange);
}

#[test]
fn swap_period_quota_and_blkio() {
    let mut l = none();
    l.memory = Some(8 * 1024 * 1024);
    l.memory_swap = Some(4 * 1024 * 1024);
    assert_eq!(validate_resource_limits(&l).unwrap_err(), LimitError::SwapBelowMemory);
    l.memory_swap = Some(-1);
    assert!(validate_resource_limits(&l).is_ok());
    let mut l = none();
    l.cpu_period = Some(999);
    assert_eq!(validate_resource_limits(&l).unwrap_err(), LimitError::CpuPeriodOutOfRange);
    l.cpu_period = Some(1000000);
    assert!(validate_resource_limits(&l).is_ok());
    let mut l = none();
    l.cpu_quota = Some(999);
    assert_eq!(validate_resource_limits(&l).unwrap_err(), LimitError::CpuQuotaTooSmall);
    l.cpu_quota = Some(-1);
    assert!(validate_resource_limits(&l).is_ok());
    let mut l = none();
    l.blkio_weight = Some(9);
    assert_eq!(validate_resource_limits(&l).unwrap_err(), LimitError::BlkioWeightOutOfRange);
    l.blkio_weight = Some(1000);
    assert!(validate_resource_limits(&l).is_ok());
    assert_eq!(LimitError::CpuSharesOutOfRange.message(), "CPU shares must be between 2 and 262144");
}

#[test]
fn volume_targets_are_checked() {
    let ok = vec![("/data".to_string(), "/srv/data".to_string())];
    assert!(validate_volumes(&ok).is_ok());
    let rel = vec![("data".to_string(), "/srv".to_string())];
    assert_eq!(validate_volumes(&rel).unwrap_err(), (0, VolumeError::InvalidTarget));
    let src = vec![("/data".to_string(), "/srv".to_string()), ("/x".to_string(), "".to_string())];
    assert_eq!(validate_volumes(&src).unwrap_err(), (1, VolumeError::InvalidSource));
    for p in ["/", "/bin", "/boot", "/dev", "/etc", "/lib", "/proc", "/sys"] {
        let v = vec![(p.to_string(), "/srv".to_string())];
        assert_eq!(validate_volumes(&v).unwrap_err(), (0, VolumeError::SystemPath));
    }
    let near = vec![("/etc2".to_string(), "/srv".to_string())];
    assert!(validate_volumes(&near).is_ok());
}

//! Validation of live resource-limit updates and of volume-set updates.

use vstd::prelude::*;
use crate::text::{chars_of, same_text};

verus! {

/// Smallest memory limit: 4 MiB.
pub const MIN_MEMORY: i64 = 4194304;
/// Largest memory limit: 1 TiB.
pub const MAX_MEMORY: i64 = 1099511627776;
pub const MIN_CPU_SHARES: i64 = 2;
pub const MAX_CPU_SHARES: i64 = 262144;
pub const MIN_CPU_PERIOD: i64 = 1000;
pub const MAX_CPU_PERIOD: i64 = 1000000;
pub const MIN_CPU_QUOTA: i64 = 1000;
pub const MIN_BLKIO_WEIGHT: u16 = 10;
pub const MAX_BLKIO_WEIGHT: u16 = 1000;

/// Progress of an update, as reported to listeners.
#[derive(Debug, Clone)]
pub enum UpdateEvent {
    UpdateStarted { container_id: String },
    ResourcesUpdated { container_id: String },
    VolumesUpdated { container_id: String },
    DatabaseUpdated { container_id: String },
    UpdateComplete { container_id: String },
    Error { container_id: String, message: String },
}

/// Requested resource limits; an absent field is left unchanged.
#[derive(Debug, Clone)]
pub struct ResourceLimits {
    /// Memory limit in bytes.
    pub memory: Option<i64>,
    /// Memory plus swap in bytes; -1 for unlimited.
    pub memory_swap: Option<i64>,
    /// Soft memory limit in bytes.
    pub memory_reservation: Option<i64>,
    /// Relative CPU weight.
    pub cpu_shares: Option<i64>,
    /// CFS period in microseconds.
    pub cpu_period: Option<i64>,
    /// CFS quota in microseconds; -1 for unlimited.
    pub cpu_quota: Option<i64>,
    /// CPUs to use, such as "0-3".
    pub cpuset_cpus: Option<String>,
    /// Block IO weight.
    pub blkio_weight: Option<u16>,
}

/// A bind of a host path into the container.
#[derive(Debug, Clone)]
pub struct VolumeMount {
    pub source: String,
    pub target: String,
    pub read_only: bool,
}

/// The first rule that a limits request breaks.
#[derive(Debug, Clone, Copy, PartialEq, Eq, Structural)]
pub enum LimitError {
    MemoryTooSmall,
    MemoryTooLarge,
    SwapBelowMemory,
    CpuSharesOutOfRange,
    CpuPeriodOutOfRange,
    CpuQuotaTooSmall,
    BlkioWeightOutOfRange,
}

impl LimitError {
    /// The text reported for this error.
    pub fn message(&self) -> (r: String)
        ensures
            *self == LimitError::MemoryTooSmall ==> r@ == "Memory limit must be at least 4MB"@,
            *self == LimitError::MemoryTooLarge ==> r@ == "Memory limit cannot exceed 1TB"@,
            *self == LimitError::SwapBelowMemory ==> r@ == "Memory swap must be greater than or equal to memory limit"@,
            *self == LimitError::CpuSharesOutOfRange ==> r@ == "CPU shares must be between 2 and 262144"@,
            *self == LimitError::CpuPeriodOutOfRange ==> r@ == "CPU period must be between 1000 and 1000000 microseconds"@,
            *self == LimitError::CpuQuotaTooSmall ==> r@ == "CPU quota must be at least 1000 microseconds or -1 for unlimited"@,
            *self == LimitError::BlkioWeightOutOfRange ==> r@ == "Block IO weight must be between 10 and 1000"@,
    {
        match self {
            LimitError::MemoryTooSmall => String::from_str("Memory limit must be at least 4MB"),
            LimitError::MemoryTooLarge => String::from_str("Memory limit cannot exceed 1TB"),
            LimitError::SwapBelowMemory => String::from_str(
                "Memory swap must be greater than or equal to memory limit",
            ),
            LimitError::CpuSharesOutOfRange => String::from_str("CPU shares must be between 2 and 262144"),
            LimitError::CpuPeriodOutOfRange => String::from_str(
                "CPU period must be between 1000 and 1000000 microseconds",
            ),
            LimitError::CpuQuotaTooSmall => String::from_str(
                "CPU quota must be at least 1000 microseconds or -1 for unlimited",
            ),
            LimitError::BlkioWeightOutOfRange => String::from_str("Block IO weight must be between 10 and 1000"),
        }
    }
}

/// The first rule that `l` breaks, in the order memory, swap, shares,
/// period, quota, block IO weight; `None` when `l` is acceptable.
pub open spec fn limits_error(l: ResourceLimits) -> Option<LimitError> {
    if l.memory.is_some() && l.memory.unwrap() < MIN_MEMORY {
        Some(LimitError::MemoryTooSmall)
    } else if l.memory.is_some() && l.memory.unwrap() > MAX_MEMORY {
        Some(LimitError::MemoryTooLarge)
    } else if l.memory.is_some() && l.memory_swap.is_some() && l.memory_swap.unwrap() != -1
        && l.memory_swap.unwrap() < l.memory.unwrap() {
        Some(LimitError::SwapBelowMemory)
    } else if l.cpu_shares.is_some() && (l.cpu_shares.unwrap() < MIN_CPU_SHARES || l.cpu_shares.unwrap() > MAX_CPU_SHARES) {
        Some(LimitError::CpuSharesOutOfRange)
    } else if l.cpu_period.is_some() && (l.cpu_period.unwrap() < MIN_CPU_PERIOD || l.cpu_period.unwrap() > MAX_CPU_PERIOD) {
        Some(LimitError::CpuPeriodOutOfRange)
    } else if l.cpu_quota.is_some() && l.cpu_quota.unwrap() < MIN_CPU_QUOTA && l.cpu_quota.unwrap() != -1 {
        Some(LimitError::CpuQuotaTooSmall)
    } else if l.blkio_weight.is_some() && (l.blkio_weight.unwrap() < MIN_BLKIO_WEIGHT || l.blkio_weight.unwrap() > MAX_BLKIO_WEIGHT) {
        Some(LimitError::BlkioWeightOutOfRange)
    } else {
        None
    }
}

/// Accepts `limits`, or names the first rule it breaks.
pub fn validate_resource_limits(limits: &ResourceLimits) -> (r: Result<(), LimitError>)
    ensures
        r is Ok <==> limits_error(*limits).is_none(),
        r is Err ==> Some(r->Err_0) == limits_error(*limits),
{
    if let Some(memory) = limits.memory {
        if memory < MIN_MEMORY {
            return Err(LimitError::MemoryTooSmall);
        }
        if memory > MAX_MEMORY {
            return Err(LimitError::MemoryTooLarge);
        }
    }
    if let (Some(memory), Some(memory_swap)) = (limits.memory, limits.memory_swap) {
        if memory_swap != -1 && memory_swap < memory {
            return Err(LimitError::SwapBelowMemory);
        }
    }
    if let Some(cpu_shares) = limits.cpu_shares {
        if cpu_shares < MIN_CPU_SHARES || cpu_shares > MAX_CPU_SHARES {
            return Err(LimitError::CpuSharesOutOfRange);
        }
    }
    if let Some(cpu_period) = limits.cpu_period {
        if cpu_period < MIN_CPU_PERIOD || cpu_period > MAX_CPU_PERIOD {
            return Err(LimitError::CpuPeriodOutOfRange);
        }
    }
    if let Some(cpu_quota) = limits.cpu_quota {
        if cpu_quota < MIN_CPU_QUOTA && cpu_quota != -1 {
            return Err(LimitError::CpuQuotaTooSmall);
        }
    }
    if let Some(blkio_weight) = limits.blkio_weight {
        if blkio_weight < MIN_BLKIO_WEIGHT || blkio_weight > MAX_BLKIO_WEIGHT {
            return Err(LimitError::BlkioWeightOutOfRange);
        }
    }
    Ok(())
}

/// The system paths that no volume may be mounted onto.
pub open spec fn denied_target(t: Seq<char>) -> bool {
    t == "/"@ || t == "/bin"@ || t == "/boot"@ || t == "/dev"@ || t == "/etc"@ || t == "/lib"@
        || t == "/proc"@ || t == "/sys"@
}

/// The first rule that the bind of `source` onto `target` breaks.
#[derive(Debug, Clone, Copy, PartialEq, Eq, Structural)]
pub enum VolumeError {
    /// The target is empty or not absolute.
    InvalidTarget,
    /// The source is empty.
    InvalidSource,
    /// The target is a system path.
    SystemPath,
}

/// The first rule that binding `source` onto `target` breaks.
pub open spec fn volume_error(target: Seq<char>, source: Seq<char>) -> Option<VolumeError> {
    if target.len() == 0 || target[0] != '/' {
        Some(VolumeError::InvalidTarget)
    } else if source.len() == 0 {
        Some(VolumeError::InvalidSource)
    } else if denied_target(target) {
        Some(VolumeError::SystemPath)
    } else {
        None
    }
}

/// Whether `t` is one of the denied system paths.
fn is_denied_target(t: &str) -> (r: bool)
    ensures
        r == denied_target(t@),
{
    same_text(t, "/") || same_text(t, "/bin") || same_text(t, "/boot") || same_text(t, "/dev")
        || same_text(t, "/etc") || same_text(t, "/lib") || same_text(t, "/proc") || same_text(t, "/sys")
}

/// Accepts every `(target, source)` bind, or returns the position of the
/// first one that breaks a rule together with that rule.
pub fn validate_volumes(volumes: &Vec<(String, String)>) -> (r: Result<(), (usize, VolumeError)>)
    ensures
        r is Ok <==> forall|k: int| 0 <= k < volumes@.len() ==> volume_error(
            (#[trigger] volumes@[k]).0@,
            volumes@[k].1@,
        ).is_none(),
        r is Err ==> {
            let (k, e) = r->Err_0;
            &&& k < volumes@.len()
            &&& volume_error(volumes@[k as int].0@, volumes@[k as int].1@) == Some(e)
            &&& forall|j: int| 0 <= j < k ==> volume_error((#[trigger] volumes@[j]).0@, volumes@[j].1@).is_none()
        },
{
    let mut i: usize = 0;
    while i < volumes.len()
        invariant
            i <= volumes@.len(),
            forall|j: int| 0 <= j < i ==> volume_error((#[trigger] volumes@[j]).0@, volumes@[j].1@).is_none(),
        decreases volumes.len() - i,
    {
        let target = chars_of(volumes[i].0.as_str());
        if target.len() == 0 || target[0] != '/' {
            return Err((i, VolumeError::InvalidTarget));
        }
        if volumes[i].1.as_str().is_empty() {
            return Err((i, VolumeError::InvalidSource));
        }
        if is_denied_target(volumes[i].0.as_str()) {
            return Err((i, VolumeError::SystemPath));
        }
        i = i + 1;
    }
    Ok(())
}

} // verus!

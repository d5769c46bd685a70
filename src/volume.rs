//! Per-container data volumes and their quotas.

use vstd::prelude::*;
use crate::pool::fresh_id;
use crate::security::{join, join_path};

verus! {

/// Size of a volume when none is asked for, in MiB.
pub const DEFAULT_QUOTA_MB: u64 = 1024;

/// A data volume.
#[derive(Debug)]
pub struct Volume {
    pub id: String,
    pub path: String,
    pub created_at: u64,
}

/// The volumes known to the daemon.
#[derive(Debug)]
pub struct VolumeMetadata {
    pub volumes: Vec<Volume>,
}

impl Volume {
    /// A volume with a fresh random id, placed under `base_path`.
    pub fn new(base_path: &str, now: u64) -> (r: Self)
        ensures
            r.path@ == join_path(base_path@, r.id@),
            r.created_at == now,
    {
        let id = fresh_id();
        let path = join(base_path, id.as_str());
        Volume { id, path, created_at: now }
    }

    /// Where the volume lives.
    pub fn get_path(&self) -> (r: &str)
        ensures
            r@ == self.path@,
    {
        self.path.as_str()
    }
}

/// Space of a volume, in MiB.
#[derive(Debug, Clone, Copy, PartialEq, Eq, Structural)]
pub struct DiskQuota {
    pub size_mb: u64,
    pub used_mb: u64,
    pub available_mb: u64,
}

/// How a quota is enforced.
#[derive(Debug, Clone, Copy, PartialEq, Eq, Structural)]
pub enum QuotaType {
    /// A fixed-size disk image (macOS).
    DiskImage,
    /// A loop device (Linux).
    LoopDevice,
    /// Size tracking only.
    Directory,
}

/// The quota asked for a volume.
#[derive(Debug, Clone)]
pub struct QuotaConfig {
    pub volume_id: String,
    pub size_mb: u64,
    pub quota_type: QuotaType,
}

/// Quota handling for the volumes under one directory.
#[derive(Debug)]
pub struct QuotaManager {
    pub base_path: String,
}

impl QuotaManager {
    /// A manager for the volumes under `base_path`.
    pub fn new(base_path: String) -> (r: Self)
        ensures
            r.base_path == base_path,
    {
        QuotaManager { base_path }
    }

    /// Where the volume `volume_id` lives.
    pub fn volume_path(&self, volume_id: &str) -> (r: String)
        ensures
            r@ == join_path(self.base_path@, volume_id@),
    {
        join(self.base_path.as_str(), volume_id)
    }

    /// The size to give a volume: the one asked for, else the default.
    pub fn quota_size(size_mb: Option<u64>) -> (r: u64)
        ensures
            r == match size_mb {
                Some(s) => s,
                None => DEFAULT_QUOTA_MB,
            },
    {
        match size_mb {
            Some(s) => s,
            None => DEFAULT_QUOTA_MB,
        }
    }

    /// Whether `used_mb` of a volume of `size_mb` exceeds its quota.
    pub fn quota_exceeded(used_mb: u64, size_mb: u64) -> (r: bool)
        ensures
            r == (used_mb > size_mb),
    {
        used_mb > size_mb
    }
}

} // verus!

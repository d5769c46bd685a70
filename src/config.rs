//! Daemon settings that the core reads.

use vstd::prelude::*;

verus! {

/// The supervisory service to report to.
#[derive(Debug, Clone)]
pub struct RemoteConfig {
    pub enabled: bool,
    pub url: String,
    pub token: String,
}

/// The file-transfer listener.
#[derive(Debug, Clone)]
pub struct SftpConfig {
    pub enabled: bool,
    pub host: String,
    pub port: u16,
}

/// The HTTP listener.
#[derive(Debug, Clone)]
pub struct ServerConfig {
    pub host: String,
    pub port: u16,
}

/// The API token setting.
#[derive(Debug, Clone)]
pub struct AuthConfig {
    pub enabled: bool,
    pub token: String,
}

/// Where the runtime listens.
#[derive(Debug, Clone)]
pub struct DockerConfig {
    pub socket_path: String,
}

/// Where state and volumes live.
#[derive(Debug, Clone)]
pub struct StorageConfig {
    pub base_path: String,
    pub containers_path: String,
    pub volumes_path: String,
}

} // verus!

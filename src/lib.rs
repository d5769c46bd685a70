//! Core logic of a single-node container orchestration daemon: the container
//! registry state machine, the host port pool, per-container firewall rule
//! sets, resource validation, the realtime event hub and console filtering.

pub mod text;
pub mod state;
pub mod manager;
pub mod pool;
pub mod update;
pub mod firewall;
pub mod hub;
pub mod console;
pub mod security;
pub mod auth;
pub mod node;
pub mod lifecycle;
pub mod fileinfo;
pub mod config;
pub mod remote;
pub mod user;
pub mod volume;
pub mod servers;
pub mod sftp;
pub mod session;

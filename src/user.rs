//! The unprivileged account that containers run as.

use vstd::prelude::*;
use crate::text::{decimal, decimal_string};

verus! {

/// Uid and gid of the container account.
pub const LIGHTD_UID: u32 = 1000;
pub const LIGHTD_GID: u32 = 1000;

/// The account containers run as.
#[derive(Debug)]
pub struct ContainerUser {
    pub username: String,
    pub uid: u32,
    pub gid: u32,
}

impl Default for ContainerUser {
    fn default() -> (r: Self)
        ensures
            r.username@ == "lightd+"@,
            r.uid == LIGHTD_UID,
            r.gid == LIGHTD_GID,
    {
        ContainerUser { username: String::from_str("lightd+"), uid: LIGHTD_UID, gid: LIGHTD_GID }
    }
}

/// Account handling.
pub struct UserManager;

impl UserManager {
    /// The runtime's user setting for `user`: "uid:gid".
    pub fn get_docker_user_string(user: &ContainerUser) -> (r: String)
        ensures
            r@ == decimal(user.uid as nat) + ":"@ + decimal(user.gid as nat),
    {
        decimal_string(user.uid as u64).concat(":").concat(decimal_string(user.gid as u64).as_str())
    }
}

} // verus!

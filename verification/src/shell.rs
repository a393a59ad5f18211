use vstd::prelude::*;

use crate::process::{spec_socket_path, socket_path_for_epoch};

verus! {

/// How a client is to be brought up.
pub struct InitializerSettings {
    existing_socket: Option<String>,
}

impl InitializerSettings {
    /// The endpoint to attach to, when one was named.
    pub closed spec fn existing(&self) -> Option<Seq<char>> {
        match self.existing_socket {
            Some(p) => Some(p@),
            None => None,
        }
    }

    /// Creates the settings with nothing named: a player will be spawned.
    pub fn new() -> (r: Self)
        ensures
            r.existing() is None,
    {
        Self { existing_socket: None }
    }

    /// Names an already-open endpoint to attach to instead of spawning.
    pub fn set_existing_socket(self, socket_path: &str) -> (r: Self)
        ensures
            r.existing() == Some(socket_path@),
    {
        Self { existing_socket: Some(socket_path.to_owned()) }
    }
}

/// The first move the runtime makes for given settings.
#[derive(Debug, PartialEq, Eq)]
pub enum InitPlan {
    /// Dial the endpoint someone else opened; its process stays untouched.
    ConnectExisting { socket_path: String },
    /// Spawn an owned player bound to a fresh endpoint, then dial it.
    SpawnOwned { socket_path: String },
}

/// Decides how to bring a client up: settings naming an endpoint attach to
/// it; settings naming none spawn an owned player on the endpoint derived
/// from `epoch`, the moment of spawning.
pub fn initialize_plan(settings: InitializerSettings, epoch: u64) -> (r: InitPlan)
    ensures
        match settings.existing() {
            Some(p) => r matches InitPlan::ConnectExisting { socket_path } && socket_path@ == p,
            None => r matches InitPlan::SpawnOwned { socket_path } && socket_path@
                == spec_socket_path(epoch as nat),
        },
{
    match settings.existing_socket {
        Some(path) => InitPlan::ConnectExisting { socket_path: path },
        None => InitPlan::SpawnOwned { socket_path: socket_path_for_epoch(epoch) },
    }
}

} // verus!

//! Named persistent sessions: request options, resource limits and the
//! session listing.

use vstd::prelude::*;

use crate::network::NetworkConfig;
use crate::shared::AGENT_MEMORY_DIR;
use crate::text::opt_str_view;

verus! {

broadcast use vstd::string::group_string_axioms;

/// A host directory mounted into the session.
#[derive(Clone, Debug, PartialEq, Eq)]
pub struct SessionVolume {
    pub host_path: String,
    pub guest_path: String,
    pub read_only: bool,
}

/// VM resource limits; unset fields use the runtime's defaults (1 CPU,
/// 2048 MiB RAM, 10 GB disk).
#[derive(Clone, Debug, PartialEq, Eq)]
pub struct SandboxResources {
    pub cpus: Option<u8>,
    pub memory_mib: Option<u32>,
    /// Sparse container rootfs virtual size in GB (at least the base image size).
    pub disk_size_gb: Option<u64>,
}

impl Default for SandboxResources {
    fn default() -> (r: Self)
        ensures
            r.cpus is None,
            r.memory_mib is None,
            r.disk_size_gb is None,
    {
        SandboxResources { cpus: None, memory_mib: None, disk_size_gb: None }
    }
}

/// A resource limit that was set to zero.
#[derive(Clone, Copy, Debug, PartialEq, Eq, Structural)]
pub enum ResourceError {
    ZeroCpus,
    ZeroMemory,
    ZeroDisk,
}

/// The message of a resource error.
pub open spec fn resource_error_message(e: ResourceError) -> Seq<char> {
    match e {
        ResourceError::ZeroCpus => "cpus must be >= 1"@,
        ResourceError::ZeroMemory => "memory_mib must be >= 1"@,
        ResourceError::ZeroDisk => "disk_size_gb must be >= 1"@,
    }
}

impl ResourceError {
    /// The message shown for this error.
    pub fn message(&self) -> (r: String)
        ensures
            r@ == resource_error_message(*self),
    {
        match self {
            ResourceError::ZeroCpus => String::from_str("cpus must be >= 1"),
            ResourceError::ZeroMemory => String::from_str("memory_mib must be >= 1"),
            ResourceError::ZeroDisk => String::from_str("disk_size_gb must be >= 1"),
        }
    }
}

impl SandboxResources {
    /// Every limit that is set must be at least 1; CPUs are checked first,
    /// then memory, then disk.
    pub fn validate(&self) -> (r: Result<(), ResourceError>)
        ensures
            r == if self.cpus == Some(0u8) {
                Err(ResourceError::ZeroCpus)
            } else if self.memory_mib == Some(0u32) {
                Err(ResourceError::ZeroMemory)
            } else if self.disk_size_gb == Some(0u64) {
                Err(ResourceError::ZeroDisk)
            } else {
                Ok(())
            },
    {
        if let Some(0) = self.cpus {
            return Err(ResourceError::ZeroCpus);
        }
        if let Some(0) = self.memory_mib {
            return Err(ResourceError::ZeroMemory);
        }
        if let Some(0) = self.disk_size_gb {
            return Err(ResourceError::ZeroDisk);
        }
        Ok(())
    }
}

/// Options for creating or reusing a named session.
#[derive(Clone, Debug)]
pub struct OpenSessionOptions {
    pub volumes: Vec<SessionVolume>,
    pub network: Option<NetworkConfig>,
    pub resources: SandboxResources,
}

impl Default for OpenSessionOptions {
    fn default() -> (r: Self)
        ensures
            r.volumes@.len() == 0,
            r.network is None,
            r.resources.cpus is None,
            r.resources.memory_mib is None,
            r.resources.disk_size_gb is None,
    {
        OpenSessionOptions {
            volumes: Vec::new(),
            network: None,
            resources: SandboxResources::default(),
        }
    }
}

/// One session as listed.
#[derive(Clone, Debug, PartialEq, Eq)]
pub struct SessionInfo {
    pub name: Option<String>,
    pub box_id: String,
    pub status: String,
    pub running: bool,
}

impl SessionInfo {
    /// A copy of this entry.
    pub fn duplicate(&self) -> (r: SessionInfo)
        ensures
            opt_str_view(r.name) == opt_str_view(self.name),
            r.box_id@ == self.box_id@,
            r.status@ == self.status@,
            r.running == self.running,
    {
        SessionInfo {
            name: match &self.name {
                Some(n) => Some(n.clone()),
                None => None,
            },
            box_id: self.box_id.clone(),
            status: self.status.clone(),
            running: self.running,
        }
    }
}

/// The first session named `name`.
pub fn find_session(sessions: &Vec<SessionInfo>, name: &str) -> (r: Option<SessionInfo>)
    ensures
        match r {
            Some(s) => exists|i: int|
                0 <= i < sessions@.len() && opt_str_view(sessions@[i].name) == Some(name@)
                    && (forall|j: int|
                    0 <= j < i ==> opt_str_view(#[trigger] sessions@[j].name) != Some(name@))
                    && s.box_id@ == sessions@[i].box_id@ && s.status@ == sessions@[i].status@
                    && s.running == sessions@[i].running && opt_str_view(s.name) == Some(name@),
            None => forall|i: int|
                0 <= i < sessions@.len() ==> opt_str_view(#[trigger] sessions@[i].name) != Some(
                    name@,
                ),
        },
{
    let wanted = name.to_owned();
    let mut i: usize = 0;
    while i < sessions.len()
        invariant
            wanted@ == name@,
            i <= sessions@.len(),
            forall|j: int|
                0 <= j < i ==> opt_str_view(#[trigger] sessions@[j].name) != Some(name@),
        decreases sessions@.len() - i,
    {
        let matches = match &sessions[i].name {
            Some(n) => *n == wanted,
            None => false,
        };
        if matches {
            return Some(sessions[i].duplicate());
        }
        i = i + 1;
    }
    None
}

/// The guest working directory of a new session: the first volume's guest
/// path.
pub fn session_working_dir(volumes: &Vec<SessionVolume>) -> (r: Option<String>)
    ensures
        opt_str_view(r) == if volumes@.len() > 0 {
            Some(volumes@[0].guest_path@)
        } else {
            None
        },
{
    if volumes.len() > 0 {
        Some(volumes[0].guest_path.clone())
    } else {
        None
    }
}

/// `{name}-{stamp}.boxlite`
pub fn export_file_name(name: &str, stamp: &str) -> (r: String)
    ensures
        r@ == name@ + "-"@ + stamp@ + ".boxlite"@,
{
    let mut out = name.to_owned();
    out.append("-");
    out.append(stamp);
    out.append(".boxlite");
    out
}

/// `mkdir -p /var/blink/memory`: creates the agent memory directory.
pub fn memory_dir_command() -> (r: String)
    ensures
        r@ == "mkdir -p "@ + AGENT_MEMORY_DIR@,
{
    let mut out = String::from_str("mkdir -p ");
    out.append(AGENT_MEMORY_DIR);
    out
}

/// How many times the memory directory is tried.
pub const MEMORY_DIR_ATTEMPTS: u32 = 3;

/// What one try of creating the memory directory came to.
#[derive(Clone, Copy, Debug, PartialEq, Eq, Structural)]
pub enum MkdirOutcome {
    /// The command could not be started.
    StartFailed,
    /// Waiting for the command failed.
    WaitFailed,
    /// The command exited with this code.
    Exited(i32),
}

/// What to do after a try.
#[derive(Clone, Copy, Debug, PartialEq, Eq, Structural)]
pub enum MkdirNext {
    /// The directory exists.
    Done,
    /// Pause, then try again.
    RetryAfterPause,
    /// Report the error.
    Fail,
    /// Stop trying and go on: the agent may create the directory itself.
    GiveUp,
}

/// The decision after try number `attempt` (from 0).
pub open spec fn mkdir_next_spec(attempt: u32, outcome: MkdirOutcome) -> MkdirNext {
    let more = attempt + 1 < MEMORY_DIR_ATTEMPTS;
    match outcome {
        MkdirOutcome::StartFailed => if more {
            MkdirNext::RetryAfterPause
        } else {
            MkdirNext::Fail
        },
        MkdirOutcome::WaitFailed => MkdirNext::Fail,
        MkdirOutcome::Exited(code) => if code == 0 {
            MkdirNext::Done
        } else if more {
            MkdirNext::RetryAfterPause
        } else {
            MkdirNext::GiveUp
        },
    }
}

/// Decide what follows try number `attempt` of creating the memory
/// directory; a retry is only ever asked for within the allowed tries.
pub fn memory_dir_next(attempt: u32, outcome: MkdirOutcome) -> (r: MkdirNext)
    requires
        attempt < MEMORY_DIR_ATTEMPTS,
    ensures
        r == mkdir_next_spec(attempt, outcome),
        r == MkdirNext::RetryAfterPause ==> attempt + 1 < MEMORY_DIR_ATTEMPTS,
{
    let more = attempt + 1 < MEMORY_DIR_ATTEMPTS;
    match outcome {
        MkdirOutcome::StartFailed => if more {
            MkdirNext::RetryAfterPause
        } else {
            MkdirNext::Fail
        },
        MkdirOutcome::WaitFailed => MkdirNext::Fail,
        MkdirOutcome::Exited(code) => if code == 0 {
            MkdirNext::Done
        } else if more {
            MkdirNext::RetryAfterPause
        } else {
            MkdirNext::GiveUp
        },
    }
}

} // verus!

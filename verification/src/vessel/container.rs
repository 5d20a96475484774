//! Container lifecycle state.

use vstd::prelude::*;

use std::collections::HashMap;

verus! {

/// Container status.
#[derive(Debug, Clone, Copy, PartialEq, Eq, Structural)]
pub enum ContainerStatus {
    Created,
    Running,
    Paused,
    Restarting,
    Removing,
    Exited,
    Dead,
}

/// The lowercase display name of each status.
pub open spec fn status_name(s: ContainerStatus) -> Seq<char> {
    match s {
        ContainerStatus::Created => "created"@,
        ContainerStatus::Running => "running"@,
        ContainerStatus::Paused => "paused"@,
        ContainerStatus::Restarting => "restarting"@,
        ContainerStatus::Removing => "removing"@,
        ContainerStatus::Exited => "exited"@,
        ContainerStatus::Dead => "dead"@,
    }
}

impl ContainerStatus {
    /// The displayed form of the status.
    pub fn to_string(&self) -> (r: String)
        ensures
            r@ == status_name(*self),
    {
        let s = match self {
            ContainerStatus::Created => "created",
            ContainerStatus::Running => "running",
            ContainerStatus::Paused => "paused",
            ContainerStatus::Restarting => "restarting",
            ContainerStatus::Removing => "removing",
            ContainerStatus::Exited => "exited",
            ContainerStatus::Dead => "dead",
        };
        String::from_str(s)
    }
}

/// Container representation.
#[derive(Debug, Clone)]
pub struct Container {
    /// Container ID.
    pub id: String,
    /// Container name.
    pub name: String,
    /// Image used.
    pub image: String,
    /// Current status.
    pub status: ContainerStatus,
}

/// Configuration for creating a container.
#[derive(Debug, Clone, Default)]
pub struct ContainerConfig {
    /// Image to use.
    pub image: String,
    /// Container name.
    pub name: Option<String>,
    /// Environment variables.
    pub env: HashMap<String, String>,
    /// Command to run.
    pub cmd: Option<Vec<String>>,
    /// Working directory.
    pub workdir: Option<String>,
}

/// The number of characters of an ID that its short form keeps.
pub open spec fn short_id_len(id_chars: nat) -> nat {
    if id_chars < 12 { id_chars } else { 12 }
}

/// The short form of an ID keeps twelve characters of a long ID and all of
/// a short one.
pub proof fn lemma_short_id_len(n: nat)
    ensures
        n >= 12 ==> short_id_len(n) == 12,
        n < 12 ==> short_id_len(n) == n,
        short_id_len(n) <= 12,
        short_id_len(n) <= n,
{
}

impl Container {
    /// Whether the container is running.
    pub fn is_running(&self) -> (r: bool)
        ensures
            r == (self.status == ContainerStatus::Running),
    {
        self.status == ContainerStatus::Running
    }

    /// Whether the container is stopped (exited or dead).
    pub fn is_stopped(&self) -> (r: bool)
        ensures
            r == (self.status == ContainerStatus::Exited || self.status == ContainerStatus::Dead),
    {
        match self.status {
            ContainerStatus::Exited | ContainerStatus::Dead => true,
            _ => false,
        }
    }

    /// Short ID: the first 12 characters of the ID (all of it when shorter).
    pub fn short_id(&self) -> (r: &str)
        ensures
            r@ == self.id@.subrange(0, short_id_len(self.id@.len()) as int),
            self.id@.len() >= 12 ==> r@.len() == 12 && r@ == self.id@.take(12),
            self.id@.len() < 12 ==> r@ == self.id@,
            r@.is_prefix_of(self.id@),
    {
        let s = self.id.as_str();
        let n = s.unicode_len();
        let k = if n < 12 { n } else { 12 };
        s.substring_char(0, k)
    }
}

} // verus!

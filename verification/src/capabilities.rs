//! Plugin capability declarations: the side effects a plugin may exercise.

use vstd::prelude::*;

use crate::text::str_eq;

verus! {

/// Side-effecting surface area that a plugin may exercise.
#[derive(Debug, Clone, Copy, PartialEq, Eq, Hash, Structural)]
pub enum Capability {
    /// Read-only access to host resources (no writes, no network).
    Read,
    /// Local filesystem reads.
    FilesystemRead,
    /// Local filesystem writes (creates, modifies, deletes).
    FilesystemWrite,
    /// Outbound network access.
    Network,
    /// Spawns child processes.
    Process,
    /// Modifies the working tree (e.g. worktrees, branches, commits).
    WorkingTree,
    /// Reads/writes persistent state in a backing store.
    Storage,
    /// Emits audit-trail entries.
    Audit,
    /// Accesses environment variables from the host.
    Environment,
    /// May execute user-supplied shell commands.
    ShellExec,
}

/// The stable wire name of each capability.
pub open spec fn capability_name(c: Capability) -> Seq<char> {
    match c {
        Capability::Read => "read"@,
        Capability::FilesystemRead => "filesystem_read"@,
        Capability::FilesystemWrite => "filesystem_write"@,
        Capability::Network => "network"@,
        Capability::Process => "process"@,
        Capability::WorkingTree => "working_tree"@,
        Capability::Storage => "storage"@,
        Capability::Audit => "audit"@,
        Capability::Environment => "environment"@,
        Capability::ShellExec => "shell_exec"@,
    }
}

/// The capability whose wire name is `s`, if any.
pub open spec fn capability_named(s: Seq<char>) -> Option<Capability> {
    if exists|c: Capability| capability_name(c) == s {
        Some(choose|c: Capability| capability_name(c) == s)
    } else {
        None
    }
}

proof fn lemma_capability_name_shape(c: Capability)
    ensures
        capability_name(c).len() > 0,
        capability_name(c).len() == match c {
            Capability::Read => 4nat,
            Capability::FilesystemRead => 15nat,
            Capability::FilesystemWrite => 16nat,
            Capability::Network => 7nat,
            Capability::Process => 7nat,
            Capability::WorkingTree => 12nat,
            Capability::Storage => 7nat,
            Capability::Audit => 5nat,
            Capability::Environment => 11nat,
            Capability::ShellExec => 10nat,
        },
        capability_name(c)[0] == match c {
            Capability::Read => 'r',
            Capability::FilesystemRead => 'f',
            Capability::FilesystemWrite => 'f',
            Capability::Network => 'n',
            Capability::Process => 'p',
            Capability::WorkingTree => 'w',
            Capability::Storage => 's',
            Capability::Audit => 'a',
            Capability::Environment => 'e',
            Capability::ShellExec => 's',
        },
{
    reveal_strlit("read");
    reveal_strlit("filesystem_read");
    reveal_strlit("filesystem_write");
    reveal_strlit("network");
    reveal_strlit("process");
    reveal_strlit("working_tree");
    reveal_strlit("storage");
    reveal_strlit("audit");
    reveal_strlit("environment");
    reveal_strlit("shell_exec");
}

/// Distinct capabilities have distinct wire names.
pub proof fn lemma_capability_name_injective(a: Capability, b: Capability)
    ensures
        capability_name(a) == capability_name(b) <==> a == b,
{
    lemma_capability_name_shape(a);
    lemma_capability_name_shape(b);
}

impl Capability {
    /// All defined capabilities, in declaration order.
    pub const ALL: [Capability; 10] = [
        Capability::Read,
        Capability::FilesystemRead,
        Capability::FilesystemWrite,
        Capability::Network,
        Capability::Process,
        Capability::WorkingTree,
        Capability::Storage,
        Capability::Audit,
        Capability::Environment,
        Capability::ShellExec,
    ];

    /// Stable string identifier used in serialized manifests and logs.
    pub fn as_str(self) -> (r: &'static str)
        ensures
            r@ == capability_name(self),
    {
        match self {
            Capability::Read => "read",
            Capability::FilesystemRead => "filesystem_read",
            Capability::FilesystemWrite => "filesystem_write",
            Capability::Network => "network",
            Capability::Process => "process",
            Capability::WorkingTree => "working_tree",
            Capability::Storage => "storage",
            Capability::Audit => "audit",
            Capability::Environment => "environment",
            Capability::ShellExec => "shell_exec",
        }
    }
}

impl Capability {
    /// Parses a wire name; names are matched exactly (case-sensitive).
    pub fn parse(s: &str) -> (r: Result<Capability, ()>)
        ensures
            r matches Ok(c) ==> capability_name(c) == s@,
            r is Err <==> (forall|c: Capability| capability_name(c) != s@),
    {
        let candidates = [
            Capability::Read,
            Capability::FilesystemRead,
            Capability::FilesystemWrite,
            Capability::Network,
            Capability::Process,
            Capability::WorkingTree,
            Capability::Storage,
            Capability::Audit,
            Capability::Environment,
            Capability::ShellExec,
        ];
        let mut i: usize = 0;
        while i < 10
            invariant
                0 <= i <= 10,
                candidates@ == seq![
                    Capability::Read,
                    Capability::FilesystemRead,
                    Capability::FilesystemWrite,
                    Capability::Network,
                    Capability::Process,
                    Capability::WorkingTree,
                    Capability::Storage,
                    Capability::Audit,
                    Capability::Environment,
                    Capability::ShellExec,
                ],
                forall|j: int| 0 <= j < i ==> capability_name(#[trigger] candidates@[j]) != s@,
            decreases 10 - i,
        {
            let c = candidates[i];
            if str_eq(c.as_str(), s) {
                return Ok(c);
            }
            i = i + 1;
        }
        assert forall|c: Capability| capability_name(c) != s@ by {
            match c {
                Capability::Read => assert(candidates@[0] == c),
                Capability::FilesystemRead => assert(candidates@[1] == c),
                Capability::FilesystemWrite => assert(candidates@[2] == c),
                Capability::Network => assert(candidates@[3] == c),
                Capability::Process => assert(candidates@[4] == c),
                Capability::WorkingTree => assert(candidates@[5] == c),
                Capability::Storage => assert(candidates@[6] == c),
                Capability::Audit => assert(candidates@[7] == c),
                Capability::Environment => assert(candidates@[8] == c),
                Capability::ShellExec => assert(candidates@[9] == c),
            }
        }
        Err(())
    }
}

impl std::str::FromStr for Capability {
    type Err = ();

    fn from_str(s: &str) -> (r: Result<Self, Self::Err>)
        ensures
            r matches Ok(c) ==> capability_name(c) == s@,
            r is Err <==> (forall|c: Capability| capability_name(c) != s@),
    {
        Capability::parse(s)
    }
}

/// Every capability's wire name parses back to that capability, and nothing
/// else parses to it.
pub proof fn lemma_capability_roundtrip(c: Capability, s: Seq<char>)
    ensures
        capability_named(capability_name(c)) == Some(c),
        capability_named(s) == Some(c) <==> s == capability_name(c),
{
    let n = capability_name(c);
    assert(exists|d: Capability| capability_name(d) == n);
    let d = choose|d: Capability| capability_name(d) == n;
    lemma_capability_name_injective(c, d);
    if capability_named(s) == Some(c) {
        let e = choose|e: Capability| capability_name(e) == s;
        lemma_capability_name_injective(c, e);
    }
}

} // verus!

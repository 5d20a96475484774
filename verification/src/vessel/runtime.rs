//! Container runtimes: their names, the arguments of the commands they run,
//! and what their command output means.

use vstd::prelude::*;

use std::collections::HashMap;

use crate::text::{concat2, decimal, decimal_string, lines, lines_of, split_char, split_on, trim,
    trimmed, views};

verus! {

/// A container runtime, identified by name. The operations that drive the
/// runtime's command-line tool are layered on top of this trait.
pub trait ContainerRuntime: Send + Sync {
    /// The runtime name.
    fn name(&self) -> &str;
}

/// Container information from a container listing.
#[derive(Debug, Clone)]
pub struct ContainerInfo {
    pub id: String,
    pub name: String,
    pub image: String,
    pub status: String,
    pub created: String,
}

/// The text of each field of a container listing entry.
pub struct ContainerInfoView {
    pub id: Seq<char>,
    pub name: Seq<char>,
    pub image: Seq<char>,
    pub status: Seq<char>,
    pub created: Seq<char>,
}

impl View for ContainerInfo {
    type V = ContainerInfoView;

    open spec fn view(&self) -> ContainerInfoView {
        ContainerInfoView {
            id: self.id@,
            name: self.name@,
            image: self.image@,
            status: self.status@,
            created: self.created@,
        }
    }
}

/// Configuration for creating a container.
#[derive(Debug, Clone)]
pub struct ContainerCreateConfig {
    pub image: String,
    pub name: Option<String>,
    pub env: HashMap<String, String>,
    pub ports: Vec<PortMapping>,
    pub volumes: Vec<VolumeMapping>,
}

/// Port mapping for container networking.
#[derive(Debug, Clone)]
pub struct PortMapping {
    pub host_port: u16,
    pub container_port: u16,
    pub protocol: Protocol,
}

/// Volume mapping for persistent storage.
#[derive(Debug, Clone)]
pub struct VolumeMapping {
    pub host_path: String,
    pub container_path: String,
    pub read_only: bool,
}

/// Network protocol.
#[derive(Debug, Clone, Copy)]
pub enum Protocol {
    Tcp,
    Udp,
}

/// Docker runtime.
#[derive(Debug, Clone, Default)]
pub struct DockerRuntime;

/// Podman runtime.
#[derive(Debug, Clone, Default)]
pub struct PodmanRuntime;

impl DockerRuntime {
    pub fn new() -> (r: Self) {
        DockerRuntime
    }
}

impl PodmanRuntime {
    pub fn new() -> (r: Self) {
        PodmanRuntime
    }
}

impl ContainerRuntime for DockerRuntime {
    fn name(&self) -> (r: &str)
        ensures
            r@ == "docker"@,
    {
        "docker"
    }
}

impl ContainerRuntime for PodmanRuntime {
    fn name(&self) -> (r: &str)
        ensures
            r@ == "podman"@,
    {
        "podman"
    }
}

// ---------------------------------------------------------------------------
// Commands
// ---------------------------------------------------------------------------

/// A runtime command that takes at most one target, the same for every
/// runtime CLI.
#[derive(Debug, Clone, Copy, PartialEq, Eq, Structural)]
pub enum RuntimeOp {
    /// Report the CLI version (probes availability).
    Version,
    /// Pull the target image.
    Pull,
    /// Remove the target image.
    RemoveImage,
    /// Start the target container.
    Start,
    /// Stop the target container.
    Stop,
    /// Remove the target container, even if it is running.
    Remove,
    /// Print the target container's logs.
    Logs,
}

/// The arguments that run `op` on `target`.
pub open spec fn op_args_spec(op: RuntimeOp, target: Seq<char>) -> Seq<Seq<char>> {
    match op {
        RuntimeOp::Version => seq!["--version"@],
        RuntimeOp::Pull => seq!["pull"@, target],
        RuntimeOp::RemoveImage => seq!["rmi"@, target],
        RuntimeOp::Start => seq!["start"@, target],
        RuntimeOp::Stop => seq!["stop"@, target],
        RuntimeOp::Remove => seq!["rm"@, "-f"@, target],
        RuntimeOp::Logs => seq!["logs"@, target],
    }
}

/// The arguments that run `op` on `target` (`Version` takes no target).
pub fn op_args(op: RuntimeOp, target: &str) -> (r: Vec<String>)
    ensures
        views(r@) == op_args_spec(op, target@),
{
    let mut r: Vec<String> = Vec::new();
    match op {
        RuntimeOp::Version => {
            r.push(String::from_str("--version"));
        },
        RuntimeOp::Pull => {
            r.push(String::from_str("pull"));
            r.push(String::from_str(target));
        },
        RuntimeOp::RemoveImage => {
            r.push(String::from_str("rmi"));
            r.push(String::from_str(target));
        },
        RuntimeOp::Start => {
            r.push(String::from_str("start"));
            r.push(String::from_str(target));
        },
        RuntimeOp::Stop => {
            r.push(String::from_str("stop"));
            r.push(String::from_str(target));
        },
        RuntimeOp::Remove => {
            r.push(String::from_str("rm"));
            r.push(String::from_str("-f"));
            r.push(String::from_str(target));
        },
        RuntimeOp::Logs => {
            r.push(String::from_str("logs"));
            r.push(String::from_str(target));
        },
    }
    assert(views(r@) =~= op_args_spec(op, target@));
    r
}

// ---------------------------------------------------------------------------
// Command output
// ---------------------------------------------------------------------------

/// What a finished runtime command reports.
pub struct CommandOutput {
    /// Whether the command exited successfully.
    pub success: bool,
    /// The exit code, if the command exited with one.
    pub code: Option<i32>,
    /// Bytes written to standard output.
    pub stdout: Vec<u8>,
    /// Bytes written to standard error.
    pub stderr: Vec<u8>,
}

/// The text that `String::from_utf8_lossy` makes of `bytes`.
pub uninterp spec fn utf8_lossy_text(bytes: Seq<u8>) -> Seq<char>;

/// `String::from_utf8_lossy`: decodes `bytes` as UTF-8, replacing invalid
/// sequences. Stated: the result is the named text of the bytes, and for
/// valid UTF-8 it is the decoded text (as the documentation says).
#[verifier::external_body]
fn utf8_lossy(bytes: &[u8]) -> (r: String)
    ensures
        r@ == utf8_lossy_text(bytes@),
        vstd::utf8::valid_utf8(bytes@) ==> r@ == vstd::utf8::decode_utf8(bytes@),
{
    String::from_utf8_lossy(bytes).to_string()
}

/// The outcome of a command whose success carries no value: its standard
/// error text when it failed.
pub fn unit_outcome(out: &CommandOutput) -> (r: Result<(), String>)
    ensures
        out.success ==> r is Ok,
        !out.success ==> (r matches Err(e) && e@ == utf8_lossy_text(out.stderr@)),
{
    if out.success {
        Ok(())
    } else {
        Err(utf8_lossy(out.stderr.as_slice()))
    }
}

/// The outcome of a `create` command: the trimmed standard output (the new
/// container's ID) on success, the standard error text otherwise.
pub fn create_outcome(out: &CommandOutput) -> (r: Result<String, String>)
    ensures
        out.success ==> (r matches Ok(id) && id@ == trimmed(utf8_lossy_text(out.stdout@))),
        !out.success ==> (r matches Err(e) && e@ == utf8_lossy_text(out.stderr@)),
{
    if out.success {
        let text = utf8_lossy(out.stdout.as_slice());
        Ok(trim(text.as_str()))
    } else {
        Err(utf8_lossy(out.stderr.as_slice()))
    }
}

// ---------------------------------------------------------------------------
// Container listings
// ---------------------------------------------------------------------------

/// The entry that a listing line with the given `|`-separated fields
/// describes; with fewer than five fields the creation time is empty.
pub open spec fn info_from_fields(parts: Seq<Seq<char>>) -> ContainerInfoView {
    ContainerInfoView {
        id: parts[0],
        name: parts[1],
        image: parts[2],
        status: parts[3],
        created: if parts.len() >= 5 {
            parts[4]
        } else {
            Seq::<char>::empty()
        },
    }
}

/// The entries of a listing whose lines carry `fields` `|`-separated fields
/// (at least four): each line with at least that many fields gives one
/// entry, in order; other lines are skipped.
pub open spec fn listing_entries(ls: Seq<Seq<char>>, fields: nat) -> Seq<ContainerInfoView>
    decreases ls.len(),
{
    if ls.len() == 0 {
        Seq::empty()
    } else {
        let rest = listing_entries(ls.drop_last(), fields);
        let parts = split_on(ls.last(), '|');
        if parts.len() >= fields {
            let e = info_from_fields(parts);
            rest.push(
                if fields >= 5 {
                    e
                } else {
                    ContainerInfoView { created: Seq::<char>::empty(), ..e }
                },
            )
        } else {
            rest
        }
    }
}

/// The listing lines that carry at least `fields` `|`-separated fields.
pub open spec fn has_fields(fields: nat) -> spec_fn(Seq<char>) -> bool {
    |l: Seq<char>| split_on(l, '|').len() >= fields
}

/// What a listing says: one entry for each line with at least `fields`
/// `|`-separated fields, in order, whose ID, name, image and status are
/// that line's first four fields, and whose creation time is its fifth
/// field when five are expected and empty otherwise.
pub proof fn lemma_listing_entries_are_line_fields(ls: Seq<Seq<char>>, fields: nat)
    requires
        4 <= fields <= 5,
    ensures
        listing_entries(ls, fields).len() == ls.filter(has_fields(fields)).len(),
        forall|k: int|
            0 <= k < listing_entries(ls, fields).len() ==> {
                let p = split_on(ls.filter(has_fields(fields))[k], '|');
                let e = #[trigger] listing_entries(ls, fields)[k];
                &&& p.len() >= fields
                &&& e.id == p[0]
                &&& e.name == p[1]
                &&& e.image == p[2]
                &&& e.status == p[3]
                &&& e.created == if fields == 5 {
                    p[4]
                } else {
                    Seq::<char>::empty()
                }
            },
    decreases ls.len(),
{
    reveal(Seq::filter);
    if ls.len() > 0 {
        lemma_listing_entries_are_line_fields(ls.drop_last(), fields);
        let kept = ls.filter(has_fields(fields));
        let prev = ls.drop_last().filter(has_fields(fields));
        let parts = split_on(ls.last(), '|');
        assert((has_fields(fields))(ls.last()) == (parts.len() >= fields));
        if parts.len() >= fields {
            assert(kept == prev.push(ls.last()));
        } else {
            assert(kept == prev);
        }
    }
}

/// The views of a sequence of listing entries.
pub open spec fn info_views(v: Seq<ContainerInfo>) -> Seq<ContainerInfoView> {
    v.map_values(|c: ContainerInfo| c@)
}

fn parse_listing(text: &str, fields: usize) -> (r: Vec<ContainerInfo>)
    requires
        4 <= fields <= 5,
    ensures
        info_views(r@) == listing_entries(lines_of(text@), fields as nat),
{
    let ls = lines(text);
    let ghost lv = views(ls@);
    let mut r: Vec<ContainerInfo> = Vec::new();
    let mut i: usize = 0;
    while i < ls.len()
        invariant
            4 <= fields <= 5,
            lv == views(ls@),
            i <= ls@.len(),
            info_views(r@) == listing_entries(lv.take(i as int), fields as nat),
        decreases ls@.len() - i,
    {
        let parts = split_char(ls[i].as_str(), '|');
        let ghost before = r@;
        assert(lv.take(i + 1).drop_last() =~= lv.take(i as int));
        assert(lv.take(i + 1).last() == ls@[i as int]@);
        if parts.len() >= fields {
            let created = if fields >= 5 {
                parts[4].clone()
            } else {
                String::new()
            };
            let info = ContainerInfo {
                id: parts[0].clone(),
                name: parts[1].clone(),
                image: parts[2].clone(),
                status: parts[3].clone(),
                created,
            };
            r.push(info);
            assert(info_views(r@) =~= info_views(before).push(info@));
        }
        i = i + 1;
    }
    assert(lv.take(ls@.len() as int) =~= lv);
    r
}

impl DockerRuntime {
    /// The arguments of the listing command; its lines carry five
    /// `|`-separated fields.
    pub fn ps_args() -> (r: Vec<String>)
        ensures
            views(r@) == seq!["ps"@, "-a"@, "--format"@,
                "{{.ID}}|{{.Names}}|{{.Image}}|{{.Status}}|{{.CreatedAt}}"@],
    {
        let mut r: Vec<String> = Vec::new();
        r.push(String::from_str("ps"));
        r.push(String::from_str("-a"));
        r.push(String::from_str("--format"));
        r.push(String::from_str("{{.ID}}|{{.Names}}|{{.Image}}|{{.Status}}|{{.CreatedAt}}"));
        assert(views(r@) =~= seq!["ps"@, "-a"@, "--format"@,
            "{{.ID}}|{{.Names}}|{{.Image}}|{{.Status}}|{{.CreatedAt}}"@]);
        r
    }

    /// Parses the listing command's standard output.
    pub fn parse_container_list(stdout: &str) -> (r: Vec<ContainerInfo>)
        ensures
            info_views(r@) == listing_entries(lines_of(stdout@), 5),
    {
        parse_listing(stdout, 5)
    }

    /// The outcome of the listing command.
    pub fn list_outcome(out: &CommandOutput) -> (r: Result<Vec<ContainerInfo>, String>)
        ensures
            out.success ==> (r matches Ok(v) && info_views(v@) == listing_entries(
                lines_of(utf8_lossy_text(out.stdout@)),
                5,
            )),
            !out.success ==> (r matches Err(e) && e@ == utf8_lossy_text(out.stderr@)),
    {
        if !out.success {
            return Err(utf8_lossy(out.stderr.as_slice()));
        }
        let text = utf8_lossy(out.stdout.as_slice());
        Ok(Self::parse_container_list(text.as_str()))
    }

    /// The outcome of the logs command: standard output when the command
    /// succeeded or exited with code 0, standard error otherwise.
    pub fn logs_outcome(out: &CommandOutput) -> (r: Result<String, String>)
        ensures
            out.success || out.code == Some(0i32) ==> (r matches Ok(t) && t@ == utf8_lossy_text(
                out.stdout@,
            )),
            !(out.success || out.code == Some(0i32)) ==> (r matches Err(e) && e@
                == utf8_lossy_text(out.stderr@)),
    {
        let zero = match out.code {
            Some(c) => c == 0,
            None => false,
        };
        if out.success || zero {
            Ok(utf8_lossy(out.stdout.as_slice()))
        } else {
            Err(utf8_lossy(out.stderr.as_slice()))
        }
    }
}

impl PodmanRuntime {
    /// The arguments of the listing command; its lines carry four
    /// `|`-separated fields.
    pub fn ps_args() -> (r: Vec<String>)
        ensures
            views(r@) == seq!["ps"@, "-a"@, "--format"@,
                "{{.ID}}|{{.Names}}|{{.Image}}|{{.Status}}"@],
    {
        let mut r: Vec<String> = Vec::new();
        r.push(String::from_str("ps"));
        r.push(String::from_str("-a"));
        r.push(String::from_str("--format"));
        r.push(String::from_str("{{.ID}}|{{.Names}}|{{.Image}}|{{.Status}}"));
        assert(views(r@) =~= seq!["ps"@, "-a"@, "--format"@,
            "{{.ID}}|{{.Names}}|{{.Image}}|{{.Status}}"@]);
        r
    }

    /// Parses the listing command's standard output; entries have no
    /// creation time.
    pub fn parse_container_list(stdout: &str) -> (r: Vec<ContainerInfo>)
        ensures
            info_views(r@) == listing_entries(lines_of(stdout@), 4),
    {
        parse_listing(stdout, 4)
    }

    /// The outcome of the listing command.
    pub fn list_outcome(out: &CommandOutput) -> (r: Result<Vec<ContainerInfo>, String>)
        ensures
            out.success ==> (r matches Ok(v) && info_views(v@) == listing_entries(
                lines_of(utf8_lossy_text(out.stdout@)),
                4,
            )),
            !out.success ==> (r matches Err(e) && e@ == utf8_lossy_text(out.stderr@)),
    {
        if !out.success {
            return Err(utf8_lossy(out.stderr.as_slice()));
        }
        let text = utf8_lossy(out.stdout.as_slice());
        Ok(Self::parse_container_list(text.as_str()))
    }

    /// The outcome of the logs command: its standard output, whatever the
    /// exit status.
    pub fn logs_outcome(out: &CommandOutput) -> (r: Result<String, String>)
        ensures
            r matches Ok(t) && t@ == utf8_lossy_text(out.stdout@),
    {
        Ok(utf8_lossy(out.stdout.as_slice()))
    }
}

// ---------------------------------------------------------------------------
// Creating containers
// ---------------------------------------------------------------------------

/// The variables that an environment map holds, by name.
pub uninterp spec fn string_map_contents(m: HashMap<String, String>) -> Map<Seq<char>, Seq<char>>;

/// `HashMap::keys` on an environment map, collected. The order of the walk
/// depends on the map's per-process hash seed and is not stated: only that
/// every variable name comes out exactly once.
#[verifier::external_body]
fn env_keys(m: &HashMap<String, String>) -> (r: Vec<&String>)
    ensures
        r@.map_values(|s: &String| s@).no_duplicates(),
        r@.map_values(|s: &String| s@).to_set() == string_map_contents(*m).dom(),
{
    m.keys().collect()
}

/// `HashMap::get` on an environment map: the value of the variable, if set.
#[verifier::external_body]
fn env_get<'a>(m: &'a HashMap<String, String>, k: &str) -> (r: Option<&'a String>)
    ensures
        match r {
            Some(v) => string_map_contents(*m).contains_key(k@) && string_map_contents(*m)[k@]
                == v@,
            None => !string_map_contents(*m).contains_key(k@),
        },
{
    m.get(k)
}

/// `HashMap::new` for an environment map: a map with no variables.
#[verifier::external_body]
pub(crate) fn empty_env() -> (r: HashMap<String, String>)
    ensures
        string_map_contents(r).dom().is_empty(),
{
    HashMap::new()
}

/// `--name <name>` when a name is given.
pub open spec fn name_args(name: Option<String>) -> Seq<Seq<char>> {
    match name {
        Some(n) => seq!["--name"@, n@],
        None => Seq::empty(),
    }
}

/// `-e NAME=VALUE` for each listed variable that the environment sets, in
/// the listed order.
pub open spec fn env_args(env: Map<Seq<char>, Seq<char>>, keys: Seq<Seq<char>>) -> Seq<Seq<char>>
    decreases keys.len(),
{
    if keys.len() == 0 {
        Seq::empty()
    } else {
        let k = keys.last();
        let rest = env_args(env, keys.drop_last());
        if env.contains_key(k) {
            rest + seq!["-e"@, k + "="@ + env[k]]
        } else {
            rest
        }
    }
}

/// `-p HOST:CONTAINER` for each port mapping, in order.
pub open spec fn port_args(ps: Seq<PortMapping>) -> Seq<Seq<char>>
    decreases ps.len(),
{
    if ps.len() == 0 {
        Seq::empty()
    } else {
        let p = ps.last();
        port_args(ps.drop_last()) + seq![
            "-p"@,
            decimal(p.host_port as nat) + ":"@ + decimal(p.container_port as nat),
        ]
    }
}

/// `-v HOST:CONTAINER` (with `:ro` for read-only mounts) for each volume
/// mapping, in order.
pub open spec fn volume_args(vs: Seq<VolumeMapping>) -> Seq<Seq<char>>
    decreases vs.len(),
{
    if vs.len() == 0 {
        Seq::empty()
    } else {
        let v = vs.last();
        let mode = if v.read_only {
            ":ro"@
        } else {
            Seq::<char>::empty()
        };
        volume_args(vs.drop_last()) + seq!["-v"@, v.host_path@ + ":"@ + v.container_path@ + mode]
    }
}

/// Each port mapping, in order, gives the pair `-p` and
/// `HOST:CONTAINER`: the host port in decimal, a colon, and the container
/// port in decimal.
pub proof fn lemma_port_args_pairs(ps: Seq<PortMapping>)
    ensures
        port_args(ps).len() == 2 * ps.len(),
        forall|i: int|
            #![trigger ps[i]]
            0 <= i < ps.len() ==> port_args(ps)[2 * i] == "-p"@ && port_args(ps)[2 * i + 1]
                == decimal(ps[i].host_port as nat) + ":"@ + decimal(ps[i].container_port as nat),
    decreases ps.len(),
{
    if ps.len() > 0 {
        let prev = ps.drop_last();
        lemma_port_args_pairs(prev);
        let p = ps.last();
        let pair = seq!["-p"@, decimal(p.host_port as nat) + ":"@ + decimal(p.container_port as nat)];
        assert(port_args(ps) == port_args(prev) + pair);
        assert forall|i: int| #![trigger ps[i]] 0 <= i < ps.len() implies port_args(ps)[2 * i] == "-p"@
            && port_args(ps)[2 * i + 1] == decimal(ps[i].host_port as nat) + ":"@
            + decimal(ps[i].container_port as nat) by {
            if i < prev.len() {
                assert(prev[i] == ps[i]);
                assert(port_args(prev)[2 * i] == "-p"@);
                assert(port_args(prev)[2 * i + 1] == decimal(prev[i].host_port as nat) + ":"@
                    + decimal(prev[i].container_port as nat));
                assert(port_args(ps)[2 * i] == port_args(prev)[2 * i]);
                assert(port_args(ps)[2 * i + 1] == port_args(prev)[2 * i + 1]);
            } else {
                assert(i == prev.len());
                assert(port_args(ps)[2 * i] == pair[0]);
                assert(port_args(ps)[2 * i + 1] == pair[1]);
            }
        }
    }
}

/// Each listed variable that the environment sets gives, in order, the
/// pair `-e` and `NAME=VALUE`.
pub proof fn lemma_env_args_pairs(env: Map<Seq<char>, Seq<char>>, keys: Seq<Seq<char>>)
    requires
        forall|i: int| 0 <= i < keys.len() ==> env.contains_key(#[trigger] keys[i]),
    ensures
        env_args(env, keys).len() == 2 * keys.len(),
        forall|i: int|
            0 <= i < keys.len() ==> env_args(env, keys).subrange(2 * i, 2 * i + 2) == seq![
                "-e"@,
                (#[trigger] keys[i]) + "="@ + env[keys[i]],
            ],
    decreases keys.len(),
{
    if keys.len() > 0 {
        let prev = keys.drop_last();
        assert forall|i: int| 0 <= i < prev.len() implies env.contains_key(#[trigger] prev[i]) by {
            assert(prev[i] == keys[i]);
        }
        lemma_env_args_pairs(env, prev);
        let k = keys.last();
        assert(env.contains_key(keys[keys.len() - 1]));
        let pair = seq!["-e"@, k + "="@ + env[k]];
        assert(env_args(env, keys) == env_args(env, prev) + pair);
        assert forall|i: int| 0 <= i < keys.len() implies env_args(env, keys).subrange(
            2 * i,
            2 * i + 2,
        ) == seq!["-e"@, (#[trigger] keys[i]) + "="@ + env[keys[i]]] by {
            if i < prev.len() {
                assert(prev[i] == keys[i]);
                assert(env_args(env, keys).subrange(2 * i, 2 * i + 2) =~= env_args(
                    env,
                    prev,
                ).subrange(2 * i, 2 * i + 2));
            } else {
                assert(env_args(env, keys).subrange(2 * i, 2 * i + 2) =~= pair);
            }
        }
    }
}

/// The suffix that marks a mount read-only: `:ro`, or nothing.
pub open spec fn mount_mode(read_only: bool) -> Seq<char> {
    if read_only {
        ":ro"@
    } else {
        Seq::<char>::empty()
    }
}

proof fn lemma_volume_arg_at(vs: Seq<VolumeMapping>, i: int)
    requires
        0 <= i < vs.len(),
    ensures
        volume_args(vs).len() == 2 * vs.len(),
        volume_args(vs)[2 * i] == "-v"@,
        volume_args(vs)[2 * i + 1] == vs[i].host_path@ + ":"@ + vs[i].container_path@
            + mount_mode(vs[i].read_only),
    decreases vs.len(),
{
    let prev = vs.drop_last();
    let v = vs.last();
    let pair = seq!["-v"@, v.host_path@ + ":"@ + v.container_path@ + mount_mode(v.read_only)];
    assert(volume_args(vs) == volume_args(prev) + pair);
    if i < prev.len() {
        lemma_volume_arg_at(prev, i);
        assert(prev[i] == vs[i]);
        assert(volume_args(vs)[2 * i] == volume_args(prev)[2 * i]);
        assert(volume_args(vs)[2 * i + 1] == volume_args(prev)[2 * i + 1]);
    } else {
        if prev.len() > 0 {
            lemma_volume_arg_at(prev, 0);
        } else {
            assert(volume_args(prev) =~= Seq::<Seq<char>>::empty());
        }
        assert(volume_args(vs)[2 * i] == pair[0]);
        assert(volume_args(vs)[2 * i + 1] == pair[1]);
    }
}

/// The argument that mounts `v`: `HOST:CONTAINER`, with `:ro` after it for
/// a read-only mount.
pub open spec fn mount_arg(v: VolumeMapping) -> Seq<char> {
    v.host_path@ + ":"@ + v.container_path@ + mount_mode(v.read_only)
}

/// Each volume mapping, in order, gives the pair `-v` and
/// `HOST:CONTAINER`, with `:ro` after it for a read-only mount.
pub proof fn lemma_volume_args_pairs(vs: Seq<VolumeMapping>)
    ensures
        volume_args(vs).len() == 2 * vs.len(),
        forall|i: int|
            0 <= i < vs.len() ==> volume_args(vs).subrange(2 * i, 2 * i + 2) == seq![
                "-v"@,
                mount_arg(#[trigger] vs[i]),
            ],
{
    if vs.len() > 0 {
        lemma_volume_arg_at(vs, 0);
    } else {
        assert(volume_args(vs) =~= Seq::<Seq<char>>::empty());
    }
    assert forall|i: int| 0 <= i < vs.len() implies volume_args(vs).subrange(2 * i, 2 * i + 2)
        == seq!["-v"@, mount_arg(#[trigger] vs[i])] by {
        lemma_volume_arg_at(vs, i);
        assert(volume_args(vs).subrange(2 * i, 2 * i + 2) =~= seq!["-v"@, mount_arg(vs[i])]);
    }
}

/// The arguments of Docker's `create` command, with the environment
/// variables in the order `keys` lists them.
pub open spec fn docker_create_args(c: ContainerCreateConfig, keys: Seq<Seq<char>>) -> Seq<
    Seq<char>,
> {
    seq!["create"@] + name_args(c.name) + env_args(string_map_contents(c.env), keys) + port_args(
        c.ports@,
    ) + volume_args(c.volumes@) + seq![c.image@]
}

/// The arguments of Podman's `create` command, with the environment
/// variables in the order `keys` lists them. Port and volume mappings are
/// not passed.
pub open spec fn podman_create_args(c: ContainerCreateConfig, keys: Seq<Seq<char>>) -> Seq<
    Seq<char>,
> {
    seq!["create"@] + name_args(c.name) + env_args(string_map_contents(c.env), keys) + seq![
        c.image@,
    ]
}

/// The layout of Docker's `create` arguments: `create` first, then
/// `--name NAME` when a name is given, then the environment pairs, then one
/// `-p HOST:CONTAINER` pair per port mapping and one `-v` pair per volume
/// mapping, in order, and the image last.
pub proof fn lemma_docker_create_args_layout(c: ContainerCreateConfig, keys: Seq<Seq<char>>)
    ensures
        ({
            let a = docker_create_args(c, keys);
            let at = 1 + name_args(c.name).len() + env_args(string_map_contents(c.env), keys).len();
            let ports = c.ports@;
            let vols = c.volumes@;
            let vat = at + 2 * ports.len();
            &&& a.len() == vat + 2 * vols.len() + 1
            &&& a[0] == "create"@
            &&& a.last() == c.image@
            &&& (c.name matches Some(n) ==> a[1] == "--name"@ && a[2] == n@)
            &&& forall|i: int|
                0 <= i < ports.len() ==> a.subrange(at + 2 * i, at + 2 * i + 2) == seq![
                    "-p"@,
                    decimal((#[trigger] ports[i]).host_port as nat) + ":"@ + decimal(
                        ports[i].container_port as nat,
                    ),
                ]
            &&& forall|i: int|
                0 <= i < vols.len() ==> a.subrange(vat + 2 * i, vat + 2 * i + 2) == seq![
                    "-v"@,
                    mount_arg(#[trigger] vols[i]),
                ]
        }),
{
    let ports = c.ports@;
    let vols = c.volumes@;
    lemma_port_args_pairs(ports);
    lemma_volume_args_pairs(vols);
    let head = seq!["create"@] + name_args(c.name);
    let env = env_args(string_map_contents(c.env), keys);
    let pa = port_args(ports);
    let va = volume_args(vols);
    let a = docker_create_args(c, keys);
    let at = 1 + name_args(c.name).len() + env.len();
    let vat = at + 2 * ports.len();
    assert(a == head + env + pa + va + seq![c.image@]);
    assert(a[0] == head[0]);
    assert forall|i: int| 0 <= i < ports.len() implies a.subrange(at + 2 * i, at + 2 * i + 2)
        == seq![
        "-p"@,
        decimal((#[trigger] ports[i]).host_port as nat) + ":"@ + decimal(
            ports[i].container_port as nat,
        ),
    ] by {
        assert(a[at + 2 * i] == pa[2 * i]);
        assert(a[at + 2 * i + 1] == pa[2 * i + 1]);
        assert(a.subrange(at + 2 * i, at + 2 * i + 2) =~= seq![pa[2 * i], pa[2 * i + 1]]);
    }
    assert forall|i: int| 0 <= i < vols.len() implies a.subrange(vat + 2 * i, vat + 2 * i + 2)
        == seq!["-v"@, mount_arg(#[trigger] vols[i])] by {
        assert(a.subrange(vat + 2 * i, vat + 2 * i + 2) =~= va.subrange(2 * i, 2 * i + 2));
    }
    if c.name is Some {
        assert(a[1] == head[1]);
        assert(a[2] == head[2]);
    }
}

/// The layout of Podman's `create` arguments: `create` first, then
/// `--name NAME` when a name is given, then the environment pairs, and the
/// image last; no port or volume arguments.
pub proof fn lemma_podman_create_args_layout(c: ContainerCreateConfig, keys: Seq<Seq<char>>)
    ensures
        ({
            let a = podman_create_args(c, keys);
            &&& a.len() == 1 + name_args(c.name).len() + env_args(string_map_contents(c.env), keys).len() + 1
            &&& a[0] == "create"@
            &&& a.last() == c.image@
            &&& (c.name matches Some(n) ==> a[1] == "--name"@ && a[2] == n@)
        }),
{
    let head = seq!["create"@] + name_args(c.name);
    let env = env_args(string_map_contents(c.env), keys);
    let a = podman_create_args(c, keys);
    assert(a == head + env + seq![c.image@]);
    assert(a[0] == head[0]);
    if c.name is Some {
        assert(a[1] == head[1]);
        assert(a[2] == head[2]);
    }
}

fn push_name_args(args: &mut Vec<String>, name: &Option<String>)
    ensures
        views(final(args)@) == views(old(args)@) + name_args(*name),
{
    match name {
        Some(n) => {
            let ghost before = views(args@);
            args.push(String::from_str("--name"));
            args.push(n.clone());
            assert(views(args@) =~= before + seq!["--name"@, n@]);
        },
        None => {
            assert(views(args@) =~= views(args@) + Seq::<Seq<char>>::empty());
        },
    }
}

fn push_env_args(args: &mut Vec<String>, env: &HashMap<String, String>, keys: &Vec<&String>)
    ensures
        views(final(args)@) == views(old(args)@) + env_args(
            string_map_contents(*env),
            keys@.map_values(|s: &String| s@),
        ),
{
    let ghost kv = keys@.map_values(|s: &String| s@);
    let ghost start = views(args@);
    let mut i: usize = 0;
    assert(kv.take(0) =~= Seq::<Seq<char>>::empty());
    assert(start =~= start + Seq::<Seq<char>>::empty());
    while i < keys.len()
        invariant
            kv == keys@.map_values(|s: &String| s@),
            i <= keys@.len(),
            views(args@) == start + env_args(string_map_contents(*env), kv.take(i as int)),
        decreases keys@.len() - i,
    {
        let k = keys[i];
        assert(kv.take(i + 1).drop_last() =~= kv.take(i as int));
        assert(kv.take(i + 1).last() == k@);
        let ghost before = views(args@);
        match env_get(env, k.as_str()) {
            Some(v) => {
                let mut pair = String::from_str(k.as_str());
                pair.append("=");
                pair.append(v.as_str());
                args.push(String::from_str("-e"));
                args.push(pair);
                assert(views(args@) =~= before + seq!["-e"@, k@ + "="@ + v@]);
            },
            None => {},
        }
        i = i + 1;
    }
    assert(kv.take(keys@.len() as int) =~= kv);
}

fn push_port_args(args: &mut Vec<String>, ports: &Vec<PortMapping>)
    ensures
        views(final(args)@) == views(old(args)@) + port_args(ports@),
{
    let ghost start = views(args@);
    let mut i: usize = 0;
    assert(ports@.take(0) =~= Seq::<PortMapping>::empty());
    assert(start =~= start + Seq::<Seq<char>>::empty());
    while i < ports.len()
        invariant
            i <= ports@.len(),
            views(args@) == start + port_args(ports@.take(i as int)),
        decreases ports@.len() - i,
    {
        let p = &ports[i];
        assert(ports@.take(i + 1).drop_last() =~= ports@.take(i as int));
        let ghost before = views(args@);
        let mut pair = decimal_string(p.host_port as u64);
        pair.append(":");
        let c = decimal_string(p.container_port as u64);
        pair.append(c.as_str());
        args.push(String::from_str("-p"));
        args.push(pair);
        assert(views(args@) =~= before + seq![
            "-p"@,
            decimal(p.host_port as nat) + ":"@ + decimal(p.container_port as nat),
        ]);
        i = i + 1;
    }
    assert(ports@.take(ports@.len() as int) =~= ports@);
}

fn push_volume_args(args: &mut Vec<String>, volumes: &Vec<VolumeMapping>)
    ensures
        views(final(args)@) == views(old(args)@) + volume_args(volumes@),
{
    let ghost start = views(args@);
    let mut i: usize = 0;
    assert(volumes@.take(0) =~= Seq::<VolumeMapping>::empty());
    assert(start =~= start + Seq::<Seq<char>>::empty());
    while i < volumes.len()
        invariant
            i <= volumes@.len(),
            views(args@) == start + volume_args(volumes@.take(i as int)),
        decreases volumes@.len() - i,
    {
        let v = &volumes[i];
        assert(volumes@.take(i + 1).drop_last() =~= volumes@.take(i as int));
        let ghost before = views(args@);
        let mut spec_text = v.host_path.clone();
        spec_text.append(":");
        spec_text.append(v.container_path.as_str());
        if v.read_only {
            spec_text.append(":ro");
        }
        args.push(String::from_str("-v"));
        args.push(spec_text);
        proof {
            let mode = if v.read_only {
                ":ro"@
            } else {
                Seq::<char>::empty()
            };
            assert(v.host_path@ + ":"@ + v.container_path@ + mode =~= spec_text@);
        }
        assert(views(args@) =~= before + seq![
            "-v"@,
            v.host_path@ + ":"@ + v.container_path@ + (if v.read_only {
                ":ro"@
            } else {
                Seq::<char>::empty()
            }),
        ]);
        i = i + 1;
    }
    assert(volumes@.take(volumes@.len() as int) =~= volumes@);
}

impl DockerRuntime {
    /// The arguments of the `create` command for `config`, with the
    /// environment variables in the order `keys` lists them (names the
    /// environment does not set are skipped).
    pub fn create_args_in_order(config: &ContainerCreateConfig, keys: &Vec<&String>) -> (r: Vec<
        String,
    >)
        ensures
            views(r@) == docker_create_args(*config, keys@.map_values(|s: &String| s@)),
    {
        let mut args: Vec<String> = Vec::new();
        args.push(String::from_str("create"));
        push_name_args(&mut args, &config.name);
        push_env_args(&mut args, &config.env, keys);
        push_port_args(&mut args, &config.ports);
        push_volume_args(&mut args, &config.volumes);
        let ghost before = views(args@);
        args.push(config.image.clone());
        assert(views(args@) =~= before + seq![config.image@]);
        assert(views(args@) =~= docker_create_args(*config, keys@.map_values(|s: &String| s@)));
        args
    }

    /// The arguments of the `create` command for `config`. The environment
    /// variables come in the order the map yields them, which depends on
    /// its hash seed; each is passed exactly once.
    pub fn create_args(config: &ContainerCreateConfig) -> (r: Vec<String>)
        ensures
            exists|keys: Seq<Seq<char>>|
                {
                    &&& keys.no_duplicates()
                    &&& keys.to_set() == string_map_contents(config.env).dom()
                    &&& views(r@) == docker_create_args(*config, keys)
                },
    {
        let keys = env_keys(&config.env);
        Self::create_args_in_order(config, &keys)
    }
}

impl PodmanRuntime {
    /// The arguments of the `create` command for `config`, with the
    /// environment variables in the order `keys` lists them (names the
    /// environment does not set are skipped).
    pub fn create_args_in_order(config: &ContainerCreateConfig, keys: &Vec<&String>) -> (r: Vec<
        String,
    >)
        ensures
            views(r@) == podman_create_args(*config, keys@.map_values(|s: &String| s@)),
    {
        let mut args: Vec<String> = Vec::new();
        args.push(String::from_str("create"));
        push_name_args(&mut args, &config.name);
        push_env_args(&mut args, &config.env, keys);
        let ghost before = views(args@);
        args.push(config.image.clone());
        assert(views(args@) =~= before + seq![config.image@]);
        assert(views(args@) =~= podman_create_args(*config, keys@.map_values(|s: &String| s@)));
        args
    }

    /// The arguments of the `create` command for `config`. The environment
    /// variables come in the order the map yields them, which depends on
    /// its hash seed; each is passed exactly once.
    pub fn create_args(config: &ContainerCreateConfig) -> (r: Vec<String>)
        ensures
            exists|keys: Seq<Seq<char>>|
                {
                    &&& keys.no_duplicates()
                    &&& keys.to_set() == string_map_contents(config.env).dom()
                    &&& views(r@) == podman_create_args(*config, keys)
                },
    {
        let keys = env_keys(&config.env);
        Self::create_args_in_order(config, &keys)
    }
}

} // verus!

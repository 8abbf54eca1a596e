//! How Terms finds out what to run in a terminal: the user's shell, the
//! environment and working directory of the child, either straight from the
//! host or, inside a flatpak sandbox, by asking the `terms-toolbox` helper on
//! the host and reading what it printed.
use vstd::prelude::*;
use crate::text::{
    chars_of, decimal, i32_to_string, is_whitespace, lemma_parse_signed_decimal, lemma_trim_idempotent,
    lemma_trim_push_whitespace, lemma_trim_signed_decimal, lemma_decimal_injective, parse_i32, parse_i32_str, signed_decimal, trim,
    trim_str, u32_to_string, IntErrorKind,
};
use crate::toolbox::ToolboxError;

verus! {

#[verifier::external_type_specification]
#[verifier::external_body]
pub struct ExYamlError(serde_yaml::Error);

/// Why a step of spawning a terminal child failed.
#[derive(Debug)]
#[non_exhaustive]
pub enum TermsError {
    /// An I/O operation failed.
    IoError(std::io::Error),
    /// A host lookup failed.
    ToolboxError(ToolboxError),
    /// Text that should have been a decimal integer was not.
    ParseIntError(IntErrorKind),
    /// Text that should have been a YAML mapping was not.
    SerdeError(serde_yaml::Error),
    /// Anything else; the text says what.
    Unknown(String),
}

/// The file whose presence tells that Terms runs inside a flatpak sandbox.
pub const FLATPAK_INFO: &'static str = "/.flatpak-info";

/// The name of the helper program that answers questions about the host.
pub const TOOLBOX: &'static str = "terms-toolbox";

/// The shell used when no other can be found.
pub const DEFAULT_SHELL: &'static str = "/bin/sh";

/// What trimming an optional text gives: nothing stays nothing, and text that
/// is empty once trimmed becomes nothing too.
pub open spec fn trimmed_option(o: Option<Seq<char>>) -> Option<Seq<char>> {
    match o {
        None => None,
        Some(s) => if trim(s).len() == 0 {
            None
        } else {
            Some(trim(s))
        },
    }
}

/// Trimming of optional text.
pub trait TrimOption {
    fn trim_option(self) -> Self;
}

impl TrimOption for Option<String> {
    /// The text without leading and trailing whitespace; `None` when nothing
    /// is left.
    fn trim_option(self) -> (r: Self)
        ensures
            r.deep_view() == trimmed_option(self.deep_view()),
    {
        match self {
            None => None,
            Some(content) => {
                let trimmed = trim_str(content.as_str());
                if trimmed.as_str().unicode_len() == 0 {
                    None
                } else {
                    Some(trimmed)
                }
            },
        }
    }
}

/// The spawner used when Terms runs directly on the host.
#[derive(Debug)]
pub struct NativeSpawner {}

/// The spawner used inside a flatpak sandbox, which reaches the host through
/// the flatpak development portal and the toolbox helper.
#[derive(Debug)]
pub struct FlatpakSpawner {}

/// Which spawner a terminal uses.
#[derive(Debug, Clone, Copy, PartialEq, Eq, Structural)]
pub enum SpawnerKind {
    /// `NativeSpawner`: Terms runs on the host.
    Native,
    /// `FlatpakSpawner`: Terms runs inside a flatpak sandbox.
    Flatpak,
}

/// The spawner to use: the flatpak one when `FLATPAK_INFO` exists
/// (`in_flatpak`), the native one otherwise.
pub fn spawner_kind(in_flatpak: bool) -> (r: SpawnerKind)
    ensures
        r == (if in_flatpak { SpawnerKind::Flatpak } else { SpawnerKind::Native }),
{
    if in_flatpak {
        SpawnerKind::Flatpak
    } else {
        SpawnerKind::Native
    }
}

/// Where the native spawner takes the user's shell from.
pub enum ShellLookup {
    /// The environment names a shell; it is used as it is.
    Found(String),
    /// The environment names none: look the user up in the passwd file.
    FromPasswd,
}

/// The shell that a finished lookup yields: its output trimmed, or nothing
/// when the lookup failed or its output was blank.
pub open spec fn shell_of_lookup<E>(r: Result<String, E>) -> Option<Seq<char>> {
    match r {
        Ok(out) => trimmed_option(Some(out@)),
        Err(_) => None,
    }
}

/// The shell that a finished lookup yields (`.ok().trim_option()`).
pub fn shell_from_lookup<E>(r: Result<String, E>) -> (shell: Option<String>)
    ensures
        shell.deep_view() == shell_of_lookup(r),
{
    r.ok().trim_option()
}

impl NativeSpawner {
    pub fn new() -> (r: Self) {
        Self {}
    }

    /// The first step of finding the user's shell: the value of `$SHELL`
    /// wins when it is set.
    pub fn shell_from_env(env_shell: Option<String>) -> (r: ShellLookup)
        ensures
            env_shell matches Some(s) ==> r matches ShellLookup::Found(t) && t@ == s@,
            env_shell is None ==> r is FromPasswd,
    {
        match env_shell {
            Some(s) => ShellLookup::Found(s),
            None => ShellLookup::FromPasswd,
        }
    }
}

impl FlatpakSpawner {
    pub fn new() -> (r: Self) {
        Self {}
    }
}

/// A question for the toolbox helper, one per subcommand of `terms-toolbox`.
#[derive(Debug, Clone, Copy, PartialEq, Eq, Structural)]
pub enum ToolboxCommand {
    /// Print the host environment as a YAML mapping.
    Env,
    /// Print the user's home directory.
    HomeDirectory,
    /// Print the login shell of user `uid`.
    Shell { uid: u32 },
    /// Print the foreground process group of the terminal on fd 3.
    ChildPid,
    /// Print the uid that owns process `pid`.
    ProcessOwner { pid: i32 },
    /// Print `/proc/<pid>/stat`.
    ProcessStatus { pid: i32 },
    /// Print `/proc/<pid>/cmdline`.
    ProcessCmdline { pid: i32 },
}

/// The subcommand name under which the toolbox answers `c`.
pub open spec fn command_name(c: ToolboxCommand) -> Seq<char> {
    match c {
        ToolboxCommand::Env => "env"@,
        ToolboxCommand::HomeDirectory => "home-directory"@,
        ToolboxCommand::Shell { .. } => "shell"@,
        ToolboxCommand::ChildPid => "child-pid"@,
        ToolboxCommand::ProcessOwner { .. } => "process-owner"@,
        ToolboxCommand::ProcessStatus { .. } => "process-status"@,
        ToolboxCommand::ProcessCmdline { .. } => "process-cmdline"@,
    }
}

/// The argument that follows the subcommand name, if `c` takes one.
pub open spec fn command_argument(c: ToolboxCommand) -> Option<Seq<char>> {
    match c {
        ToolboxCommand::Shell { uid } => Some(decimal(uid as nat)),
        ToolboxCommand::ProcessOwner { pid } => Some(signed_decimal(pid as int)),
        ToolboxCommand::ProcessStatus { pid } => Some(signed_decimal(pid as int)),
        ToolboxCommand::ProcessCmdline { pid } => Some(signed_decimal(pid as int)),
        _ => None,
    }
}

/// The command line that asks the toolbox at `toolbox_path` the question `c`.
pub open spec fn command_line(toolbox_path: Seq<char>, c: ToolboxCommand) -> Seq<Seq<char>> {
    match command_argument(c) {
        Some(arg) => seq![toolbox_path, command_name(c), arg],
        None => seq![toolbox_path, command_name(c)],
    }
}

impl ToolboxCommand {
    /// The subcommand name.
    pub fn name(&self) -> (r: &'static str)
        ensures
            r@ == command_name(*self),
    {
        match self {
            ToolboxCommand::Env => "env",
            ToolboxCommand::HomeDirectory => "home-directory",
            ToolboxCommand::Shell { .. } => "shell",
            ToolboxCommand::ChildPid => "child-pid",
            ToolboxCommand::ProcessOwner { .. } => "process-owner",
            ToolboxCommand::ProcessStatus { .. } => "process-status",
            ToolboxCommand::ProcessCmdline { .. } => "process-cmdline",
        }
    }

    /// The argument after the subcommand name, written in decimal.
    pub fn argument(&self) -> (r: Option<String>)
        ensures
            r.deep_view() == command_argument(*self),
    {
        match self {
            ToolboxCommand::Shell { uid } => Some(u32_to_string(*uid)),
            ToolboxCommand::ProcessOwner { pid } => Some(i32_to_string(*pid)),
            ToolboxCommand::ProcessStatus { pid } => Some(i32_to_string(*pid)),
            ToolboxCommand::ProcessCmdline { pid } => Some(i32_to_string(*pid)),
            _ => None,
        }
    }

    /// The command line that runs the toolbox at `toolbox_path` on this
    /// question.
    pub fn argv(&self, toolbox_path: &str) -> (r: Vec<String>)
        ensures
            r.deep_view() == command_line(toolbox_path@, *self),
    {
        let mut argv: Vec<String> = Vec::new();
        argv.push(toolbox_path.to_owned());
        argv.push(self.name().to_owned());
        match self.argument() {
            Some(arg) => argv.push(arg),
            None => {},
        }
        proof {
            assert(argv.deep_view() =~= command_line(toolbox_path@, *self));
        }
        argv
    }
}

/// Where waiting for a host command to exit stands after one event of the
/// portal's stream of exits.
#[derive(Debug, Clone, Copy, PartialEq, Eq, Structural)]
pub enum ExitWatch {
    /// The event was about another process: keep waiting.
    Waiting,
    /// The command is done, with this exit status.
    Exited(u32),
}

/// One step of waiting for process `pid`: an exit of `pid` ends the wait with
/// its status, an exit of another process is passed over, and the end of the
/// stream ends the wait with status 1.
pub fn watch_exit(pid: u32, event: Option<(u32, u32)>) -> (r: ExitWatch)
    ensures
        event is None ==> r == ExitWatch::Exited(1),
        event matches Some((child, status)) ==> r == (if child == pid {
            ExitWatch::Exited(status)
        } else {
            ExitWatch::Waiting
        }),
{
    match event {
        None => ExitWatch::Exited(1),
        Some((child, status)) => if child == pid {
            ExitWatch::Exited(status)
        } else {
            ExitWatch::Waiting
        },
    }
}

/// The message of a toolbox run that exited with a non-zero status.
pub open spec fn exit_status_message(status: u32) -> Seq<char> {
    "Toolbox command exited with status "@ + decimal(status as nat)
}

/// A toolbox run counts only when it exited with status 0; otherwise its
/// output is not read and the run fails with an `Unknown` error.
pub fn check_toolbox_exit(status: u32) -> (r: Result<(), TermsError>)
    ensures
        r is Ok <==> status == 0,
        r matches Err(e) ==> e matches TermsError::Unknown(msg) && msg@ == exit_status_message(status),
{
    if status != 0 {
        let mut msg = "Toolbox command exited with status ".to_owned();
        msg.append(u32_to_string(status).as_str());
        Err(TermsError::Unknown(msg))
    } else {
        Ok(())
    }
}

/// What a toolbox run printed, trimmed.
pub fn toolbox_output(raw: &str) -> (r: String)
    ensures
        r@ == trim(raw@),
{
    trim_str(raw)
}

/// `base` with the relative path component `component` pushed onto it, as
/// `PathBuf::push` does it: a `'/'` goes between them unless `base` is empty
/// or already ends in one.
pub open spec fn path_join(base: Seq<char>, component: Seq<char>) -> Seq<char> {
    if base.len() > 0 && base.last() != '/' {
        base.push('/') + component
    } else {
        base + component
    }
}

fn join_path(base: String, component: &str) -> (r: String)
    ensures
        r@ == path_join(base@, component@),
{
    let chars = chars_of(base.as_str());
    let mut base = base;
    if chars.len() > 0 && chars[chars.len() - 1] != '/' {
        base.append("/");
        proof { assert(chars@ + "/"@ == chars@.push('/')) by { reveal_strlit("/"); } }
    }
    base.append(component);
    base
}

/// Where the toolbox helper of a flatpak install lives, given the install's
/// `app-path` from `/.flatpak-info`: `<app-path>/bin/terms-toolbox`.
pub fn toolbox_path(app_path: &str) -> (r: String)
    ensures
        r@ == path_join(path_join(app_path@, "bin"@), TOOLBOX@),
{
    join_path(join_path(app_path.to_owned(), "bin"), TOOLBOX)
}

/// The entries of the YAML mapping that `text` holds, in document order, each
/// key and value taken as text where it is a YAML string and as `None`
/// otherwise; `None` when `serde_yaml` refuses `text` as a mapping (an empty
/// or null document reads as a mapping with no entries).
pub uninterp spec fn yaml_mapping_entries(text: Seq<char>) -> Option<Seq<(Option<Seq<char>>, Option<Seq<char>>)>>;

/// The YAML document that `serde_yaml` writes for a mapping of the string
/// keys to the string values of `pairs`, in their order; `None` when it
/// reports an error.
pub uninterp spec fn yaml_mapping_text(pairs: Seq<(Seq<char>, Seq<char>)>) -> Option<Seq<char>>;

/// `serde_yaml::from_str::<serde_yaml::Mapping>`, with each key and value
/// handed out through `Value::as_str`. The contract says the result is the
/// named function `yaml_mapping_entries` of the text; what YAML parses to is
/// not stated.
#[verifier::external_body]
fn parse_yaml_mapping(text: &str) -> (r: Result<Vec<(Option<String>, Option<String>)>, serde_yaml::Error>)
    ensures
        r is Ok <==> yaml_mapping_entries(text@) is Some,
        r matches Ok(v) ==> v.deep_view() == yaml_mapping_entries(text@)->Some_0,
{
    let mapping: serde_yaml::Mapping = serde_yaml::from_str(text)?;
    Ok(mapping.iter().map(|(k, v)| (k.as_str().map(str::to_owned), v.as_str().map(str::to_owned))).collect())
}

/// `serde_yaml::to_string` of a `serde_yaml::Mapping` that holds `pairs` as
/// string keys and string values, inserted in order. The contract says the
/// result is the named function `yaml_mapping_text` of the pairs; the YAML
/// text itself is not stated.
#[verifier::external_body]
fn write_yaml_mapping(pairs: &Vec<(String, String)>) -> (r: Result<String, serde_yaml::Error>)
    ensures
        r is Ok <==> yaml_mapping_text(pairs.deep_view()) is Some,
        r matches Ok(t) ==> t@ == yaml_mapping_text(pairs.deep_view())->Some_0,
{
    let mut mapping = serde_yaml::Mapping::new();
    for (key, value) in pairs {
        mapping.insert(serde_yaml::Value::String(key.clone()), serde_yaml::Value::String(value.clone()));
    }
    serde_yaml::to_string(&mapping)
}

/// The entries whose key and value are both text, in order.
pub open spec fn string_pairs(entries: Seq<(Option<Seq<char>>, Option<Seq<char>>)>) -> Seq<(Seq<char>, Seq<char>)>
    decreases entries.len(),
{
    if entries.len() == 0 {
        Seq::empty()
    } else {
        let rest = string_pairs(entries.drop_last());
        match entries.last() {
            (Some(k), Some(v)) => rest.push((k, v)),
            _ => rest,
        }
    }
}

/// The environment as a YAML mapping of names to values, as the toolbox
/// prints it for the `env` question.
pub fn env_to_yaml(vars: &Vec<(String, String)>) -> (r: Result<String, serde_yaml::Error>)
    ensures
        r is Ok <==> yaml_mapping_text(vars.deep_view()) is Some,
        r matches Ok(t) ==> t@ == yaml_mapping_text(vars.deep_view())->Some_0,
{
    write_yaml_mapping(vars)
}

/// The `NAME=value` strings of an environment, in order, as they are handed
/// to a child process.
pub open spec fn assignments(env: Seq<(Seq<char>, Seq<char>)>) -> Seq<Seq<char>> {
    env.map_values(|p: (Seq<char>, Seq<char>)| p.0 + "="@ + p.1)
}

impl NativeSpawner {
    /// The `NAME=value` strings of `envv`, in order.
    pub fn env_assignments(envv: &Vec<(String, String)>) -> (r: Vec<String>)
        ensures
            r.deep_view() == assignments(envv.deep_view()),
    {
        let mut r: Vec<String> = Vec::new();
        let mut i: usize = 0;
        while i < envv.len()
            invariant
                i <= envv.len(),
                r.deep_view() == assignments(envv.deep_view().take(i as int)),
            decreases envv.len() - i,
        {
            let mut entry = envv[i].0.clone();
            entry.append("=");
            entry.append(envv[i].1.as_str());
            let ghost before = r.deep_view();
            r.push(entry);
            proof {
                assert(envv.deep_view().take(i + 1) == envv.deep_view().take(i as int).push(envv.deep_view()[i as int]));
                assert(r.deep_view() == before.push(entry@));
            }
            i += 1;
        }
        proof { assert(envv.deep_view().take(envv.len() as int) == envv.deep_view()); }
        r
    }
}

/// What a run of `(key, value)` pairs sets, one after the other: a later
/// value for a key replaces an earlier one (`HashMap::insert`).
pub open spec fn pairs_map<K, V>(pairs: Seq<(K, V)>) -> Map<K, V>
    decreases pairs.len(),
{
    if pairs.len() == 0 {
        Map::empty()
    } else {
        pairs_map(pairs.drop_last()).insert(pairs.last().0, pairs.last().1)
    }
}

/// No key occurs twice among `pairs`.
pub open spec fn keys_distinct<K, V>(pairs: Seq<(K, V)>) -> bool {
    forall|i: int, j: int| 0 <= i < j < pairs.len() ==> pairs[i].0 != pairs[j].0
}

proof fn lemma_pairs_map_has<K, V>(pairs: Seq<(K, V)>, i: int)
    requires
        keys_distinct(pairs),
        0 <= i < pairs.len(),
    ensures
        pairs_map(pairs).contains_key(pairs[i].0),
        pairs_map(pairs)[pairs[i].0] == pairs[i].1,
    decreases pairs.len(),
{
    if i < pairs.len() - 1 {
        let p = pairs.drop_last();
        assert(keys_distinct(p));
        assert(p[i] == pairs[i]);
        lemma_pairs_map_has(p, i);
        assert(pairs[i].0 != pairs.last().0);
    }
}

proof fn lemma_pairs_map_keys<K, V>(pairs: Seq<(K, V)>, key: K)
    requires
        pairs_map(pairs).contains_key(key),
    ensures
        exists|i: int| 0 <= i < pairs.len() && #[trigger] pairs[i].0 == key,
    decreases pairs.len(),
{
    if pairs.last().0 != key {
        let p = pairs.drop_last();
        lemma_pairs_map_keys(p, key);
        let i = choose|i: int| 0 <= i < p.len() && #[trigger] p[i].0 == key;
        assert(pairs[i].0 == key);
    } else {
        assert(pairs[pairs.len() - 1].0 == key);
    }
}

/// Replacing the value of a key that is there, in place, sets that key.
proof fn lemma_pairs_map_update<K, V>(v: Seq<(K, V)>, i: int, k: K, val: V)
    requires
        keys_distinct(v),
        0 <= i < v.len(),
        v[i].0 == k,
    ensures
        keys_distinct(v.update(i, (k, val))),
        pairs_map(v.update(i, (k, val))) == pairs_map(v).insert(k, val),
{
    let w = v.update(i, (k, val));
    assert forall|a: int, b: int| 0 <= a < b < w.len() implies w[a].0 != w[b].0 by {
        assert(w[a].0 == v[a].0 && w[b].0 == v[b].0);
    }
    assert forall|q: K| #[trigger] pairs_map(w).contains_key(q) == pairs_map(v).insert(k, val).contains_key(q) by {
        if pairs_map(w).contains_key(q) {
            lemma_pairs_map_keys(w, q);
            let j = choose|j: int| 0 <= j < w.len() && #[trigger] w[j].0 == q;
            lemma_pairs_map_has(v, j);
        }
        if pairs_map(v).contains_key(q) {
            lemma_pairs_map_keys(v, q);
            let j = choose|j: int| 0 <= j < v.len() && #[trigger] v[j].0 == q;
            lemma_pairs_map_has(w, j);
        }
        if q == k {
            lemma_pairs_map_has(w, i);
        }
    }
    assert forall|q: K| #[trigger] pairs_map(w).contains_key(q) implies pairs_map(w)[q] == pairs_map(v).insert(k, val)[q] by {
        lemma_pairs_map_keys(w, q);
        let j = choose|j: int| 0 <= j < w.len() && #[trigger] w[j].0 == q;
        lemma_pairs_map_has(w, j);
        if j != i {
            lemma_pairs_map_has(v, j);
            assert(w[j] == v[j]);
            assert(v[j].0 != v[i].0);
        } else {
            assert(w[j] == (k, val));
        }
    }
    assert(pairs_map(w) =~= pairs_map(v).insert(k, val));
}

/// Adding a key that is not there, at the end, sets that key.
proof fn lemma_pairs_map_push<K, V>(v: Seq<(K, V)>, k: K, val: V)
    requires
        keys_distinct(v),
        forall|j: int| 0 <= j < v.len() ==> v[j].0 != k,
    ensures
        keys_distinct(v.push((k, val))),
        pairs_map(v.push((k, val))) == pairs_map(v).insert(k, val),
{
    assert(v.push((k, val)).drop_last() =~= v);
}

/// Sets `name` to `value` among `vars`, whose names are distinct: the value
/// of a name already there is replaced in place, a new name is added at the
/// end (`HashMap::insert`).
fn set_var(vars: &mut Vec<(String, String)>, name: String, value: String)
    requires
        keys_distinct(old(vars).deep_view()),
    ensures
        keys_distinct(final(vars).deep_view()),
        pairs_map(final(vars).deep_view()) == pairs_map(old(vars).deep_view()).insert(name@, value@),
{
    let ghost v = vars.deep_view();
    let mut i: usize = 0;
    while i < vars.len()
        invariant
            v == vars.deep_view(),
            v == old(vars).deep_view(),
            keys_distinct(v),
            i <= vars.len(),
            forall|j: int| 0 <= j < i ==> v[j].0 != name@,
        decreases vars.len() - i,
    {
        if vars[i].0.eq(&name) {
            let ghost k = name@;
            let ghost val = value@;
            proof { assert(v[i as int].0 == vars@[i as int].0@); }
            vars.set(i, (name, value));
            proof {
                assert(vars.deep_view() =~= v.update(i as int, (k, val)));
                lemma_pairs_map_update(v, i as int, k, val);
            }
            return;
        }
        proof { assert(vars.deep_view()[i as int].0 == vars@[i as int].0@); }
        i += 1;
    }
    let ghost k = name@;
    let ghost val = value@;
    vars.push((name, value));
    proof {
        assert(vars.deep_view() =~= v.push((k, val)));
        lemma_pairs_map_push(v, k, val);
    }
}

/// Sets descriptor `key` to `fd` in the descriptor table `fds`, whose keys
/// are distinct: a key already there gets the new descriptor in place, a new
/// key is added at the end (`HashMap::insert`).
fn set_fd(fds: &mut Vec<(u32, i32)>, key: u32, fd: i32)
    requires
        keys_distinct(old(fds)@),
    ensures
        keys_distinct(final(fds)@),
        pairs_map(final(fds)@) == pairs_map(old(fds)@).insert(key, fd),
{
    let ghost v = fds@;
    let mut i: usize = 0;
    while i < fds.len()
        invariant
            v == fds@,
            v == old(fds)@,
            keys_distinct(v),
            i <= fds.len(),
            forall|j: int| 0 <= j < i ==> v[j].0 != key,
        decreases fds.len() - i,
    {
        if fds[i].0 == key {
            fds.set(i, (key, fd));
            proof { lemma_pairs_map_update(v, i as int, key, fd); }
            return;
        }
        i += 1;
    }
    fds.push((key, fd));
    proof { lemma_pairs_map_push(v, key, fd); }
}

/// The working directory of a toolbox run on the host.
pub const HOST_COMMAND_CWD: &'static str = "/";

/// The descriptor under which a toolbox run gets the write end of the pipe
/// that its answer is read from: its standard output.
pub const TOOLBOX_STDOUT_FD: u32 = 1;

/// A command for the flatpak portal to run on the host: its working
/// directory, its command line, and the table of descriptors it gets, each
/// as (number in the child, descriptor here).
pub struct HostCommand {
    pub cwd: String,
    pub argv: Vec<String>,
    pub fds: Vec<(u32, i32)>,
}

/// The host command that asks the toolbox at `toolbox_path` the question
/// `command`: it runs in `/`, and gets the caller's descriptors `fds` with
/// the pipe's write end `write_fd` as its standard output (replacing a
/// descriptor 1 of the caller's, keeping the others).
pub fn toolbox_host_command(toolbox_path: &str, command: ToolboxCommand, fds: Vec<(u32, i32)>, write_fd: i32) -> (r:
    HostCommand)
    requires
        keys_distinct(fds@),
    ensures
        r.cwd@ == HOST_COMMAND_CWD@,
        r.argv.deep_view() == command_line(toolbox_path@, command),
        keys_distinct(r.fds@),
        pairs_map(r.fds@) == pairs_map(fds@).insert(TOOLBOX_STDOUT_FD, write_fd),
{
    let mut table = fds;
    set_fd(&mut table, TOOLBOX_STDOUT_FD, write_fd);
    HostCommand { cwd: HOST_COMMAND_CWD.to_owned(), argv: command.argv(toolbox_path), fds: table }
}

impl FlatpakSpawner {
    /// The host environment from what the toolbox printed for `env`: the
    /// entries of the YAML mapping whose name and value are both text.
    pub fn env_from_output(out: &str) -> (r: Result<Vec<(String, String)>, TermsError>)
        ensures
            r is Ok <==> yaml_mapping_entries(out@) is Some,
            r matches Ok(v) ==> keys_distinct(v.deep_view()) && pairs_map(v.deep_view()) == pairs_map(
                string_pairs(yaml_mapping_entries(out@)->Some_0),
            ),
            r matches Err(e) ==> e is SerdeError,
    {
        let entries = match parse_yaml_mapping(out) {
            Ok(entries) => entries,
            Err(err) => return Err(TermsError::SerdeError(err)),
        };
        let ghost ev = entries.deep_view();
        let mut varmap: Vec<(String, String)> = Vec::new();
        let mut i: usize = 0;
        while i < entries.len()
            invariant
                i <= entries.len(),
                ev == entries.deep_view(),
                keys_distinct(varmap.deep_view()),
                pairs_map(varmap.deep_view()) == pairs_map(string_pairs(ev.take(i as int))),
            decreases entries.len() - i,
        {
            proof {
                assert(ev.take(i + 1).drop_last() == ev.take(i as int));
                assert(ev.take(i + 1).last() == ev[i as int]);
            }
            match &entries[i] {
                (Some(key), Some(value)) => {
                    let ghost before = varmap.deep_view();
                    let ghost sp = string_pairs(ev.take(i as int));
                    set_var(&mut varmap, key.clone(), value.clone());
                    proof {
                        assert(string_pairs(ev.take(i + 1)) == sp.push((key@, value@)));
                        assert(sp.push((key@, value@)).drop_last() =~= sp);
                    }
                },
                _ => {},
            }
            i += 1;
        }
        proof { assert(ev.take(entries.len() as int) == ev); }
        Ok(varmap)
    }

    /// The working directory from what the toolbox printed for
    /// `home-directory`: the text, trimmed.
    pub fn working_dir_from_output(out: &str) -> (r: String)
        ensures
            r@ == trim(out@),
    {
        trim_str(out)
    }

    /// The foreground process from what the toolbox printed for `child-pid`:
    /// the text read as a decimal `i32`.
    pub fn foreground_pid_from_output(out: &str) -> (r: Result<i32, TermsError>)
        ensures
            parse_i32(out@) matches Ok(n) ==> r == Ok::<i32, TermsError>(n as i32),
            parse_i32(out@) matches Err(k) ==> r matches Err(TermsError::ParseIntError(e)) && e == k,
    {
        match parse_i32_str(out) {
            Ok(pid) => Ok(pid),
            Err(kind) => Err(TermsError::ParseIntError(kind)),
        }
    }
}

/// Trimming optional text twice is trimming it once.
pub proof fn lemma_trim_option_idempotent(o: Option<Seq<char>>)
    ensures
        trimmed_option(trimmed_option(o)) == trimmed_option(o),
{
    if let Some(s) = o {
        lemma_trim_idempotent(s);
    }
}

/// The process id that the toolbox prints for `child-pid` (in decimal, then
/// a newline) is the one the sandbox side reads back from the printed text
/// (`toolbox_output`, then `foreground_pid_from_output`).
pub proof fn lemma_printed_pid_reads_back(pid: i32)
    ensures
        parse_i32(trim(signed_decimal(pid as int).push('\n'))) == Ok::<int, IntErrorKind>(pid as int),
{
    lemma_trim_push_whitespace(signed_decimal(pid as int), '\n');
    lemma_trim_signed_decimal(pid as int);
    lemma_parse_signed_decimal(pid);
}

/// The shell that the toolbox prints for `shell` (then a newline) is, once
/// the sandbox side has read it back (`toolbox_output`, then
/// `shell_from_lookup`), the shell itself, trimmed, or nothing when it is
/// blank: the same as trimming the shell directly.
pub proof fn lemma_printed_shell_reads_back(shell: Seq<char>)
    ensures
        trimmed_option(Some(trim(shell.push('\n')))) == trimmed_option(Some(shell)),
{
    lemma_trim_push_whitespace(shell, '\n');
    lemma_trim_idempotent(shell);
}

/// Different subcommand names for different kinds of question.
proof fn lemma_command_keys_distinct(a: ToolboxCommand, b: ToolboxCommand)
    requires
        command_name(a) == command_name(b),
    ensures
        a is Env <==> b is Env,
        a is HomeDirectory <==> b is HomeDirectory,
        a is Shell <==> b is Shell,
        a is ChildPid <==> b is ChildPid,
        a is ProcessOwner <==> b is ProcessOwner,
        a is ProcessStatus <==> b is ProcessStatus,
        a is ProcessCmdline <==> b is ProcessCmdline,
{
    reveal_strlit("env");
    reveal_strlit("home-directory");
    reveal_strlit("shell");
    reveal_strlit("child-pid");
    reveal_strlit("process-owner");
    reveal_strlit("process-status");
    reveal_strlit("process-cmdline");
    let na = command_name(a);
    let nb = command_name(b);
    assert(na.len() == nb.len());
    assert(na[0] == nb[0]);
    assert(na[8] == nb[8] || na.len() <= 8);
}

/// Every question has a command line of its own: the toolbox can tell any
/// two different questions apart by the command line that asks them.
pub proof fn lemma_command_line_identifies_question(toolbox_path: Seq<char>, a: ToolboxCommand, b: ToolboxCommand)
    requires
        command_line(toolbox_path, a) == command_line(toolbox_path, b),
    ensures
        a == b,
{
    let la = command_line(toolbox_path, a);
    let lb = command_line(toolbox_path, b);
    assert(la[1] == lb[1]);
    lemma_command_keys_distinct(a, b);
    match a {
        ToolboxCommand::Shell { uid: x } => {
            let y: u32 = b->Shell_uid;
            assert(la[2] == lb[2]);
            lemma_decimal_injective(x as nat, y as nat);
        },
        ToolboxCommand::ProcessOwner { pid: x } => {
            let y: i32 = b->ProcessOwner_pid;
            assert(la[2] == lb[2]);
            lemma_parse_signed_decimal(x);
            lemma_parse_signed_decimal(y);
        },
        ToolboxCommand::ProcessStatus { pid: x } => {
            let y: i32 = b->ProcessStatus_pid;
            assert(la[2] == lb[2]);
            lemma_parse_signed_decimal(x);
            lemma_parse_signed_decimal(y);
        },
        ToolboxCommand::ProcessCmdline { pid: x } => {
            let y: i32 = b->ProcessCmdline_pid;
            assert(la[2] == lb[2]);
            lemma_parse_signed_decimal(x);
            lemma_parse_signed_decimal(y);
        },
        _ => {},
    }
}

} // verus!

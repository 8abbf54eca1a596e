//! The decisions of a terminal widget: the command line and working
//! directory of its child, the environment the child gets, the keys it
//! handles itself, its scrollback, its font and its padding.
use vstd::prelude::*;
use crate::spawn::DEFAULT_SHELL;
use crate::text::{chars_of, decimal, push_decimal, string_of};

verus! {

/// How much output a terminal keeps above the screen.
#[derive(Debug, Clone, Copy, PartialEq, Eq, Structural)]
pub enum ScrollbackMode {
    /// A fixed number of lines, set by the user.
    FixedSize,
    /// Everything.
    Unlimited,
    /// Nothing.
    Disabled,
}

/// The scrollback length that the terminal widget takes: the configured
/// number of lines, `-1` for no limit, `0` for none.
pub fn scrollback_lines(mode: ScrollbackMode, lines: u32) -> (r: i64)
    ensures
        mode == ScrollbackMode::FixedSize ==> r == lines,
        mode == ScrollbackMode::Unlimited ==> r == -1,
        mode == ScrollbackMode::Disabled ==> r == 0,
{
    match mode {
        ScrollbackMode::FixedSize => lines as i64,
        ScrollbackMode::Unlimited => -1i64,
        ScrollbackMode::Disabled => 0i64,
    }
}

/// Whether the field for a custom scrollback length takes input.
pub fn custom_scrollback_sensitive(mode: ScrollbackMode) -> (r: bool)
    ensures
        r == (mode == ScrollbackMode::FixedSize),
{
    mode == ScrollbackMode::FixedSize
}

/// What the terminal does with a key press.
#[derive(Debug, Clone, Copy, PartialEq, Eq, Structural)]
pub enum KeyAction {
    /// Copy the selection as text, clear it, and stop the event.
    CopySelection,
    /// Paste the clipboard and stop the event.
    Paste,
    /// Let the event through to the child.
    Proceed,
}

/// What the terminal does with a key press: with easy copy and paste on,
/// Ctrl+C copies a selection and Ctrl+V pastes; everything else goes to the
/// child.
pub open spec fn key_action_for(control: bool, key_name: Option<Seq<char>>, has_selection: bool, easy_copy_paste: bool) -> KeyAction {
    if !control {
        KeyAction::Proceed
    } else if key_name == Some(seq!['c']) && has_selection && easy_copy_paste {
        KeyAction::CopySelection
    } else if key_name == Some(seq!['v']) && easy_copy_paste {
        KeyAction::Paste
    } else {
        KeyAction::Proceed
    }
}

fn is_single_char(s: &str, c: char) -> (r: bool)
    ensures
        r == (s@ == seq![c]),
{
    let v = chars_of(s);
    if v.len() == 1 && v[0] == c {
        proof { assert(v@ == seq![c]); }
        true
    } else {
        false
    }
}

/// What the terminal does with a key press, given whether Control is held,
/// the key's name, whether text is selected and whether easy copy and paste
/// is on.
pub fn key_action(control: bool, key_name: Option<&str>, has_selection: bool, easy_copy_paste: bool) -> (r: KeyAction)
    ensures
        r == key_action_for(control, key_name.deep_view(), has_selection, easy_copy_paste),
        control && key_name.deep_view() == Some(seq!['v']) && easy_copy_paste ==> r == KeyAction::Paste,
{
    if !control {
        return KeyAction::Proceed;
    }
    proof {
        assert(seq!['c'][0] != seq!['v'][0]);
    }
    match key_name {
        Some(name) => {
            if is_single_char(name, 'c') {
                if has_selection && easy_copy_paste {
                    KeyAction::CopySelection
                } else {
                    KeyAction::Proceed
                }
            } else if is_single_char(name, 'v') {
                if easy_copy_paste {
                    KeyAction::Paste
                } else {
                    KeyAction::Proceed
                }
            } else {
                KeyAction::Proceed
            }
        },
        None => KeyAction::Proceed,
    }
}

/// The command line of a terminal's child: the user's own shell command when
/// one is set and parses, otherwise the shell (the spawner's, else
/// `/bin/sh`), as a login shell when that is asked for and no command is
/// given; a command is run with `-c`.
pub open spec fn spawn_command_line(
    custom: Option<Seq<Seq<char>>>,
    shell: Option<Seq<char>>,
    login_shell: bool,
    command: Option<Seq<char>>,
) -> Seq<Seq<char>> {
    let base = match custom {
        Some(argv) => argv,
        None => {
            let sh = match shell {
                Some(s) => s,
                None => DEFAULT_SHELL@,
            };
            if login_shell && command is None {
                seq![sh, "--login"@]
            } else {
                seq![sh]
            }
        },
    };
    match command {
        Some(c) => base + seq!["-c"@, c],
        None => base,
    }
}

/// The command line of a terminal's child. `custom` is the user's shell
/// command split into words, when it is set and could be split; `shell` is
/// what the spawner found, asked only when `custom` is `None`.
pub fn spawn_argv(custom: Option<Vec<String>>, shell: Option<String>, login_shell: bool, command: Option<String>) -> (r: Vec<String>)
    ensures
        r.deep_view() == spawn_command_line(custom.deep_view(), shell.deep_view(), login_shell, command.deep_view()),
        command matches Some(c) ==> r.deep_view().len() >= 2 && r.deep_view()[r.deep_view().len() - 2] == "-c"@
            && r.deep_view()[r.deep_view().len() - 1] == c@,
{
    let login = login_shell && command.is_none();
    let mut cmd: Vec<String> = match custom {
        Some(argv) => argv,
        None => {
            let sh = match shell {
                Some(s) => s,
                None => DEFAULT_SHELL.to_owned(),
            };
            let mut v: Vec<String> = Vec::new();
            v.push(sh);
            if login {
                v.push("--login".to_owned());
            }
            v
        },
    };
    let ghost base = cmd.deep_view();
    match command {
        Some(c) => {
            cmd.push("-c".to_owned());
            cmd.push(c);
        },
        None => {},
    }
    proof {
        assert(cmd.deep_view() =~= spawn_command_line(custom.deep_view(), shell.deep_view(), login_shell, command.deep_view()));
    }
    cmd
}

/// The working directory of a terminal's child: the one it was opened with,
/// else what the spawner found, else `/`. `spawner_dir` is asked only when
/// `configured` is `None`.
pub fn spawn_working_dir<E>(configured: Option<String>, spawner_dir: Option<Result<String, E>>) -> (r: String)
    ensures
        configured matches Some(d) ==> r@ == d@,
        configured is None ==> r@ == (match spawner_dir {
            Some(Ok(d)) => d@,
            _ => "/"@,
        }),
{
    match configured {
        Some(d) => d,
        None => match spawner_dir {
            Some(Ok(d)) => d,
            _ => "/".to_owned(),
        },
    }
}

/// What a terminal's child is started from, fixed when the terminal starts
/// it: the user's shell command split into words (when it is set and could
/// be split), whether a shell is started as a login shell, the command to
/// run, the working directory the terminal was opened with, and what the
/// child's own variables are made of (`terms_env`): the application's name,
/// the VTE library's version and the directory of user themes.
pub struct SpawnPlan {
    pub custom: Option<Vec<String>>,
    pub login_shell: bool,
    pub command: Option<String>,
    pub working_directory: Option<String>,
    pub app_name: String,
    pub vte_major: u32,
    pub vte_minor: u32,
    pub vte_micro: u32,
    pub themes_dir: String,
}

/// The pty flags a child is started with: VTE's default (`VTE_PTY_DEFAULT`).
pub const PTY_FLAGS_DEFAULT: u32 = 0;

/// How long starting a child may take, in seconds.
pub const SPAWN_TIMEOUT_SECS: u64 = 1;

/// The variables a child of a terminal with `plan` gets: those of
/// `terms_env`, not the spawner's environment.
pub open spec fn plan_env(plan: SpawnPlan) -> Seq<(Seq<char>, Seq<char>)> {
    terms_env_spec(plan.app_name@, plan.vte_major as nat, plan.vte_minor as nat, plan.vte_micro as nat, plan.themes_dir@)
}

/// Whether the version in `plan` can be written as `VTE_VERSION`.
pub open spec fn plan_version_fits(plan: SpawnPlan) -> bool {
    vte_version(plan.vte_major as nat, plan.vte_minor as nat, plan.vte_micro as nat) <= u32::MAX
}

/// Where starting a terminal's child stands.
#[derive(Debug)]
pub enum SpawnStage {
    /// Nothing has been asked yet.
    Start,
    /// Waiting for the spawner's environment.
    AwaitingEnv,
    /// Waiting for the spawner's shell.
    AwaitingShell,
    /// The command line is known; waiting for the spawner's working directory.
    AwaitingWorkingDir { argv: Vec<String> },
    /// Waiting for the child to be started.
    AwaitingSpawn,
    /// The child runs; waiting for it to exit.
    Running,
    /// Nothing more to do.
    Done,
}

/// What happened since the last step: the outcome of the last action.
#[derive(Debug)]
pub enum SpawnEvent {
    /// The terminal asks for its child to be started.
    Begin,
    /// The spawner's environment arrived (`true`) or could not be had.
    Env(bool),
    /// The spawner's shell, if it found one.
    Shell(Option<String>),
    /// The spawner's working directory, if it found one.
    WorkingDir(Option<String>),
    /// The child was started (`true`) or could not be.
    Spawned(bool),
    /// The child exited with this status.
    ChildExited(i32),
}

/// What the terminal is to do next.
#[derive(Debug)]
pub enum SpawnAction {
    /// Ask the spawner for its environment.
    GetEnv,
    /// Ask the spawner for the user's shell.
    GetShell,
    /// Ask the spawner for a working directory.
    GetWorkingDir,
    /// Start the child with this command line in this directory, with
    /// these variables, pty flags and timeout.
    Spawn { argv: Vec<String>, working_dir: String, env: Vec<(String, String)>, pty_flags: u32, timeout_secs: u64 },
    /// Wait for the child to exit.
    WaitForExit,
    /// Tell the terminal that its child exited with this status.
    ReportExit(i32),
    /// Give up: starting the child failed.
    Stop,
    /// The event does not belong to this stage; nothing changes.
    Ignore,
}

/// Whether `action` starts the child of a terminal with `plan` with the
/// command line `argv` in `working_dir`: with the variables of `plan_env`,
/// the default pty flags and a timeout of one second.
pub open spec fn spawns_with(plan: SpawnPlan, argv: Seq<Seq<char>>, working_dir: Seq<char>, action: SpawnAction) -> bool {
    action matches SpawnAction::Spawn { argv: a, working_dir: w, env: e, pty_flags: f, timeout_secs: t } && a.deep_view()
        == argv && w@ == working_dir && e.deep_view() == plan_env(plan) && f == PTY_FLAGS_DEFAULT && t
        == SPAWN_TIMEOUT_SECS
}

/// What follows once the command line `argv` is known: the child is started
/// at once in the directory the terminal was opened with, or, when it was
/// opened with none, the spawner is asked for one.
pub open spec fn after_command_line(plan: SpawnPlan, argv: Seq<Seq<char>>, stage: SpawnStage, action: SpawnAction) -> bool {
    match plan.working_directory {
        Some(d) => stage is AwaitingSpawn && spawns_with(plan, argv, d@, action),
        None => (stage matches SpawnStage::AwaitingWorkingDir { argv: a } && a.deep_view() == argv) && action is GetWorkingDir,
    }
}

fn spawn_action(plan: &SpawnPlan, argv: Vec<String>, working_dir: String) -> (r: SpawnAction)
    requires
        plan_version_fits(*plan),
    ensures
        spawns_with(*plan, argv.deep_view(), working_dir@, r),
{
    let env = terms_env(plan.app_name.as_str(), plan.vte_major, plan.vte_minor, plan.vte_micro, plan.themes_dir.as_str());
    SpawnAction::Spawn { argv, working_dir, env, pty_flags: PTY_FLAGS_DEFAULT, timeout_secs: SPAWN_TIMEOUT_SECS }
}

fn copy_words(v: &Vec<String>) -> (r: Vec<String>)
    ensures
        r.deep_view() == v.deep_view(),
{
    let mut r: Vec<String> = Vec::new();
    let mut i: usize = 0;
    while i < v.len()
        invariant
            i <= v.len(),
            r.deep_view() == v.deep_view().take(i as int),
        decreases v.len() - i,
    {
        let w = v[i].clone();
        let ghost before = r.deep_view();
        r.push(w);
        proof {
            assert(r.deep_view() =~= before.push(w@));
            assert(v.deep_view().take(i + 1) =~= v.deep_view().take(i as int).push(v.deep_view()[i as int]));
        }
        i += 1;
    }
    proof { assert(v.deep_view().take(v.len() as int) =~= v.deep_view()); }
    r
}

fn copy_text(o: &Option<String>) -> (r: Option<String>)
    ensures
        r.deep_view() == o.deep_view(),
{
    match o {
        Some(s) => Some(s.clone()),
        None => None,
    }
}

fn command_line_known(plan: &SpawnPlan, argv: Vec<String>) -> (r: (SpawnStage, SpawnAction))
    requires
        plan_version_fits(*plan),
    ensures
        after_command_line(*plan, argv.deep_view(), r.0, r.1),
{
    match &plan.working_directory {
        Some(d) => (SpawnStage::AwaitingSpawn, spawn_action(plan, argv, d.clone())),
        None => (SpawnStage::AwaitingWorkingDir { argv }, SpawnAction::GetWorkingDir),
    }
}

/// One step of starting a terminal's child, in the order the terminal
/// takes: the environment first (its failure ends everything), then the
/// shell, asked only when no custom shell command is set, then the working
/// directory, asked only when the terminal was opened with none (`/` when
/// the spawner finds none), then the child itself, with the variables of
/// `terms_env` (not the spawner's environment), the default pty flags and a
/// one-second timeout; its exit is reported.
/// An event that does not belong to the stage changes nothing.
pub fn spawn_step(plan: &SpawnPlan, stage: SpawnStage, event: SpawnEvent) -> (r: (SpawnStage, SpawnAction))
    requires
        plan_version_fits(*plan),
    ensures
        (stage is Start && event is Begin) ==> (r.0 is AwaitingEnv && r.1 is GetEnv),
        (stage is AwaitingEnv && event == SpawnEvent::Env(false)) ==> (r.0 is Done && r.1 is Stop),
        (stage is AwaitingEnv && event == SpawnEvent::Env(true) && plan.custom is None) ==> (r.0 is AwaitingShell
            && r.1 is GetShell),
        (stage is AwaitingEnv && event == SpawnEvent::Env(true) && plan.custom is Some) ==> after_command_line(
            *plan,
            spawn_command_line(plan.custom.deep_view(), None, plan.login_shell, plan.command.deep_view()),
            r.0,
            r.1,
        ),
        (stage is AwaitingShell && event is Shell) ==> after_command_line(
            *plan,
            spawn_command_line(None, event->Shell_0.deep_view(), plan.login_shell, plan.command.deep_view()),
            r.0,
            r.1,
        ),
        (stage is AwaitingWorkingDir && event is WorkingDir) ==> (r.0 is AwaitingSpawn && spawns_with(
            *plan,
            stage->AwaitingWorkingDir_argv.deep_view(),
            match event->WorkingDir_0 {
                Some(d) => d@,
                None => "/"@,
            },
            r.1,
        )),
        (stage is AwaitingSpawn && event == SpawnEvent::Spawned(true)) ==> (r.0 is Running && r.1 is WaitForExit),
        (stage is AwaitingSpawn && event == SpawnEvent::Spawned(false)) ==> (r.0 is Done && r.1 is Stop),
        (stage is Running && event is ChildExited) ==> (r.0 is Done && r.1 == SpawnAction::ReportExit(
            event->ChildExited_0,
        )),
        !((stage is Start && event is Begin) || (stage is AwaitingEnv && event is Env) || (stage is AwaitingShell
            && event is Shell) || (stage is AwaitingWorkingDir && event is WorkingDir) || (stage is AwaitingSpawn
            && event is Spawned) || (stage is Running && event is ChildExited)) ==> (r.0 == stage && r.1 is Ignore),
{
    match (stage, event) {
        (SpawnStage::Start, SpawnEvent::Begin) => (SpawnStage::AwaitingEnv, SpawnAction::GetEnv),
        (SpawnStage::AwaitingEnv, SpawnEvent::Env(ok)) => {
            if !ok {
                (SpawnStage::Done, SpawnAction::Stop)
            } else {
                match &plan.custom {
                    Some(words) => {
                        let argv = spawn_argv(Some(copy_words(words)), None, plan.login_shell, copy_text(&plan.command));
                        command_line_known(plan, argv)
                    },
                    None => (SpawnStage::AwaitingShell, SpawnAction::GetShell),
                }
            }
        },
        (SpawnStage::AwaitingShell, SpawnEvent::Shell(shell)) => {
            let argv = spawn_argv(None, shell, plan.login_shell, copy_text(&plan.command));
            command_line_known(plan, argv)
        },
        (SpawnStage::AwaitingWorkingDir { argv }, SpawnEvent::WorkingDir(dir)) => {
            let working_dir = match dir {
                Some(d) => d,
                None => "/".to_owned(),
            };
            (SpawnStage::AwaitingSpawn, spawn_action(plan, argv, working_dir))
        },
        (SpawnStage::AwaitingSpawn, SpawnEvent::Spawned(ok)) => {
            if ok {
                (SpawnStage::Running, SpawnAction::WaitForExit)
            } else {
                (SpawnStage::Done, SpawnAction::Stop)
            }
        },
        (SpawnStage::Running, SpawnEvent::ChildExited(status)) => (SpawnStage::Done, SpawnAction::ReportExit(status)),
        (stage, _) => (stage, SpawnAction::Ignore),
    }
}

/// The value of `VTE_VERSION` for a VTE library of version
/// `major.minor.micro`.
pub open spec fn vte_version(major: nat, minor: nat, micro: nat) -> nat {
    major * 10000 + minor * 100 + micro
}

/// The variables that Terms adds to a child's environment, in this order:
/// `TERM`, `COLORTERM`, `TERM_PROGRAM`, `VTE_VERSION`, `TERMS_THEMES_DIR`.
pub open spec fn terms_env_spec(app_name: Seq<char>, major: nat, minor: nat, micro: nat, themes_dir: Seq<char>) -> Seq<(Seq<char>, Seq<char>)> {
    seq![
        ("TERM"@, "xterm-256color"@),
        ("COLORTERM"@, "truecolor"@),
        ("TERM_PROGRAM"@, app_name),
        ("VTE_VERSION"@, decimal(vte_version(major, minor, micro))),
        ("TERMS_THEMES_DIR"@, themes_dir),
    ]
}

/// The variables that Terms adds to a child's environment, for an app named
/// `app_name`, a VTE library of version `major.minor.micro`, and user themes
/// in `themes_dir`.
pub fn terms_env(app_name: &str, major: u32, minor: u32, micro: u32, themes_dir: &str) -> (r: Vec<(String, String)>)
    requires
        vte_version(major as nat, minor as nat, micro as nat) <= u32::MAX,
    ensures
        r.deep_view() == terms_env_spec(app_name@, major as nat, minor as nat, micro as nat, themes_dir@),
{
    proof {
        assert(major * 10000 <= u32::MAX);
        assert(minor * 100 <= u32::MAX);
    }
    let version: u32 = major * 10000 + minor * 100 + micro;
    let mut digits: Vec<char> = Vec::new();
    push_decimal(&mut digits, version as u64);
    proof { assert(Seq::<char>::empty() + decimal(version as nat) == decimal(version as nat)); }
    let mut env: Vec<(String, String)> = Vec::new();
    env.push(("TERM".to_owned(), "xterm-256color".to_owned()));
    env.push(("COLORTERM".to_owned(), "truecolor".to_owned()));
    env.push(("TERM_PROGRAM".to_owned(), app_name.to_owned()));
    env.push(("VTE_VERSION".to_owned(), string_of(&digits)));
    env.push(("TERMS_THEMES_DIR".to_owned(), themes_dir.to_owned()));
    proof {
        assert(env.deep_view() =~= terms_env_spec(app_name@, major as nat, minor as nat, micro as nat, themes_dir@));
    }
    env
}

/// The font description a terminal is given: the desktop's font name when
/// the system font is in use (none when the desktop names none), else the
/// custom font from the settings.
pub fn font_name(use_system_font: bool, system_font: Option<String>, custom_font: String) -> (r: Option<String>)
    ensures
        use_system_font ==> r.deep_view() == system_font.deep_view(),
        !use_system_font ==> r.deep_view() == Some(custom_font@),
{
    if use_system_font {
        system_font
    } else {
        Some(custom_font)
    }
}

/// The CSS rule that gives the terminal its padding, in pixels.
pub open spec fn padding_css_spec(top: u32, right: u32, bottom: u32, left: u32) -> Seq<char> {
    "vte-terminal { padding: "@ + decimal(top as nat) + "px "@ + decimal(right as nat) + "px "@
        + decimal(bottom as nat) + "px "@ + decimal(left as nat) + "px; }"@
}

/// The CSS rule that gives the terminal its padding, in pixels.
pub fn padding_css(top: u32, right: u32, bottom: u32, left: u32) -> (r: String)
    ensures
        r@ == padding_css_spec(top, right, bottom, left),
{
    let mut css = "vte-terminal { padding: ".to_owned();
    css.append(crate::text::u32_to_string(top).as_str());
    css.append("px ");
    css.append(crate::text::u32_to_string(right).as_str());
    css.append("px ");
    css.append(crate::text::u32_to_string(bottom).as_str());
    css.append("px ");
    css.append(crate::text::u32_to_string(left).as_str());
    css.append("px; }");
    css
}


/// A command given to a terminal is always run through its shell's `-c`:
/// whatever shell was found or configured, the command line ends with the
/// two words `-c` and the command; without a custom command line it is the
/// shell, `-c` and the command, never a login shell.
pub proof fn lemma_command_runs_with_dash_c(
    custom: Option<Seq<Seq<char>>>,
    shell: Option<Seq<char>>,
    login_shell: bool,
    c: Seq<char>,
)
    ensures
        ({
            let r = spawn_command_line(custom, shell, login_shell, Some(c));
            r.len() >= 2 && r[r.len() - 2] == "-c"@ && r[r.len() - 1] == c
        }),
        custom is None ==> spawn_command_line(custom, shell, login_shell, Some(c)) == seq![
            match shell {
                Some(s) => s,
                None => DEFAULT_SHELL@,
            },
            "-c"@,
            c,
        ],
{
}

/// Without a command nothing is appended: the command line is the custom
/// one, or the shell alone, with `--login` when a login shell is asked for.
pub proof fn lemma_no_command_no_dash_c(custom: Option<Seq<Seq<char>>>, shell: Option<Seq<char>>, login_shell: bool)
    ensures
        custom matches Some(argv) ==> spawn_command_line(custom, shell, login_shell, None) == argv,
        custom is None ==> spawn_command_line(custom, shell, login_shell, None)[0] == (match shell {
            Some(s) => s,
            None => DEFAULT_SHELL@,
        }),
        custom is None ==> spawn_command_line(custom, shell, login_shell, None).len() == (if login_shell {
            2int
        } else {
            1int
        }),
{
}

/// Without Control every key goes to the child. With Control held and easy
/// copy and paste on, `v` pastes whether or not text is selected, and `c`
/// copies only a selection; the selection matters to Ctrl+C alone, and with
/// easy copy and paste off nothing is handled.
pub proof fn lemma_paste_ignores_selection(control: bool, key_name: Option<Seq<char>>, easy_copy_paste: bool)
    ensures
        key_action_for(true, Some(seq!['v']), true, true) == KeyAction::Paste,
        key_action_for(true, Some(seq!['v']), false, true) == KeyAction::Paste,
        key_name != Some(seq!['c']) ==> key_action_for(control, key_name, true, easy_copy_paste) == key_action_for(
            control,
            key_name,
            false,
            easy_copy_paste,
        ),
        !easy_copy_paste ==> key_action_for(control, key_name, true, false) == KeyAction::Proceed,
        key_action_for(false, key_name, true, easy_copy_paste) == KeyAction::Proceed,
        key_action_for(true, Some(seq!['c']), true, true) == KeyAction::CopySelection,
        key_action_for(true, Some(seq!['c']), false, easy_copy_paste) == KeyAction::Proceed,
{
    assert(seq!['v'] != seq!['c']) by {
        assert(seq!['v'][0] != seq!['c'][0]);
    }
}

} // verus!

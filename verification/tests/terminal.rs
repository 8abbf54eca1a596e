use terms::terminal::{
    custom_scrollback_sensitive, font_name, key_action, padding_css, scrollback_lines, spawn_argv, spawn_step, spawn_working_dir,
    terms_env, KeyAction, ScrollbackMode, SpawnAction, SpawnEvent, SpawnPlan, SpawnStage,
    PTY_FLAGS_DEFAULT,
};

fn s(v: &[&str]) -> Vec<String> {
    v.iter().map(|x| x.to_string()).collect()
}

#[test]
fn scrollback_by_mode() {
    assert_eq!(scrollback_lines(ScrollbackMode::FixedSize, 1000), 1000);
    assert_eq!(scrollback_lines(ScrollbackMode::Unlimited, 1000), -1);
    assert_eq!(scrollback_lines(ScrollbackMode::Disabled, 1000), 0);
    assert!(custom_scrollback_sensitive(ScrollbackMode::FixedSize));
    assert!(!custom_scrollback_sensitive(ScrollbackMode::Unlimited));
}

#[test]
fn easy_copy_paste_keys() {
    assert_eq!(key_action(true, Some("c"), true, true), KeyAction::CopySelection);
    assert_eq!(key_action(true, Some("c"), false, true), KeyAction::Proceed);
    assert_eq!(key_action(true, Some("c"), true, false), KeyAction::Proceed);
    assert_eq!(key_action(true, Some("v"), false, true), KeyAction::Paste);
    assert_eq!(key_action(true, Some("v"), false, false), KeyAction::Proceed);
    assert_eq!(key_action(false, Some("v"), true, true), KeyAction::Proceed);
    assert_eq!(key_action(true, Some("x"), true, true), KeyAction::Proceed);
    assert_eq!(key_action(true, None, true, true), KeyAction::Proceed);
}

#[test]
fn child_command_lines() {
    assert_eq!(spawn_argv(None, Some("/bin/zsh".into()), false, None), s(&["/bin/zsh"]));
    assert_eq!(spawn_argv(None, Some("/bin/zsh".into()), true, None), s(&["/bin/zsh", "--login"]));
    assert_eq!(spawn_argv(None, None, true, Some("top".into())), s(&["/bin/sh", "-c", "top"]));
    assert_eq!(spawn_argv(Some(s(&["fish", "-i"])), None, true, None), s(&["fish", "-i"]));
    assert_eq!(spawn_argv(Some(s(&["fish"])), None, false, Some("ls -l".into())), s(&["fish", "-c", "ls -l"]));
}

#[test]
fn child_working_directory() {
    assert_eq!(spawn_working_dir::<()>(Some("/tmp".into()), None), "/tmp");
    assert_eq!(spawn_working_dir::<()>(None, Some(Ok("/home/me".into()))), "/home/me");
    assert_eq!(spawn_working_dir(None, Some(Err(()))), "/");
    assert_eq!(spawn_working_dir::<()>(None, None), "/");
}

#[test]
fn terms_environment() {
    let env = terms_env("Terms", 0, 74, 2, "/home/me/.local/share/terms/themes");
    assert_eq!(
        env,
        vec![
            ("TERM".to_string(), "xterm-256color".to_string()),
            ("COLORTERM".to_string(), "truecolor".to_string()),
            ("TERM_PROGRAM".to_string(), "Terms".to_string()),
            ("VTE_VERSION".to_string(), "7402".to_string()),
            ("TERMS_THEMES_DIR".to_string(), "/home/me/.local/share/terms/themes".to_string()),
        ]
    );
}

#[test]
fn padding_rule() {
    assert_eq!(padding_css(1, 2, 3, 4), "vte-terminal { padding: 1px 2px 3px 4px; }");
}

#[test]
fn font_follows_the_system_setting() {
    assert_eq!(font_name(true, Some("Cantarell 11".to_string()), "Monospace 12".to_string()), Some("Cantarell 11".to_string()));
    assert_eq!(font_name(true, None, "Monospace 12".to_string()), None);
    assert_eq!(font_name(false, Some("Cantarell 11".to_string()), "Monospace 12".to_string()), Some("Monospace 12".to_string()));
}

fn plan(custom: Option<Vec<String>>, login_shell: bool, command: Option<&str>, dir: Option<&str>) -> SpawnPlan {
    SpawnPlan {
        custom,
        login_shell,
        command: command.map(|c| c.to_string()),
        working_directory: dir.map(|d| d.to_string()),
        app_name: "Terms".to_string(),
        vte_major: 0,
        vte_minor: 76,
        vte_micro: 0,
        themes_dir: "/themes".to_string(),
    }
}

#[test]
fn spawn_asks_shell_then_directory() {
    let plan = plan(None, true, None, None);
    let (st, a) = spawn_step(&plan, SpawnStage::Start, SpawnEvent::Begin);
    assert!(matches!(a, SpawnAction::GetEnv));
    let (st, a) = spawn_step(&plan, st, SpawnEvent::Env(true));
    assert!(matches!(a, SpawnAction::GetShell));
    let (st, a) = spawn_step(&plan, st, SpawnEvent::Shell(Some("/bin/zsh".to_string())));
    assert!(matches!(a, SpawnAction::GetWorkingDir));
    let (st, a) = spawn_step(&plan, st, SpawnEvent::WorkingDir(None));
    match a {
        SpawnAction::Spawn { argv, working_dir, env, pty_flags, timeout_secs } => {
            assert_eq!(argv, s(&["/bin/zsh", "--login"]));
            assert_eq!(working_dir, "/");
            assert_eq!(env, terms_env("Terms", 0, 76, 0, "/themes"));
            assert_eq!(env[3], ("VTE_VERSION".to_string(), "7600".to_string()));
            assert_eq!(pty_flags, PTY_FLAGS_DEFAULT);
            assert_eq!(timeout_secs, 1);
        },
        other => panic!("unexpected {:?}", other),
    }
    let (st, a) = spawn_step(&plan, st, SpawnEvent::Spawned(true));
    assert!(matches!(a, SpawnAction::WaitForExit));
    let (st, a) = spawn_step(&plan, st, SpawnEvent::ChildExited(2));
    assert!(matches!(a, SpawnAction::ReportExit(2)));
    assert!(matches!(st, SpawnStage::Done));
}

#[test]
fn spawn_with_custom_command_and_directory_asks_nothing_more() {
    let plan = plan(Some(s(&["fish", "-i"])), true, Some("htop"), Some("/tmp"));
    let (st, a) = spawn_step(&plan, SpawnStage::AwaitingEnv, SpawnEvent::Env(true));
    match a {
        SpawnAction::Spawn { argv, working_dir, .. } => {
            assert_eq!(argv, s(&["fish", "-i", "-c", "htop"]));
            assert_eq!(working_dir, "/tmp");
        },
        other => panic!("unexpected {:?}", other),
    }
    assert!(matches!(st, SpawnStage::AwaitingSpawn));
}

#[test]
fn spawn_stops_on_env_failure_and_ignores_stray_events() {
    let plan = plan(None, false, None, None);
    let (st, a) = spawn_step(&plan, SpawnStage::AwaitingEnv, SpawnEvent::Env(false));
    assert!(matches!(a, SpawnAction::Stop));
    assert!(matches!(st, SpawnStage::Done));
    let (st, a) = spawn_step(&plan, SpawnStage::Running, SpawnEvent::Begin);
    assert!(matches!(a, SpawnAction::Ignore));
    assert!(matches!(st, SpawnStage::Running));
}

use terms::spawn::{
    check_toolbox_exit, env_to_yaml, toolbox_host_command, shell_from_lookup, spawner_kind, toolbox_output, toolbox_path, watch_exit, ExitWatch,
    FlatpakSpawner, NativeSpawner, ShellLookup, SpawnerKind, TermsError, ToolboxCommand, TrimOption, DEFAULT_SHELL,
    FLATPAK_INFO, TOOLBOX,
};
use terms::text::IntErrorKind;

#[test]
fn trim_option_drops_blank_text() {
    assert_eq!(Some("  /bin/bash \n".to_string()).trim_option(), Some("/bin/bash".to_string()));
    assert_eq!(Some(" \t ".to_string()).trim_option(), None);
    assert_eq!(None::<String>.trim_option(), None);
}

#[test]
fn trim_option_twice_is_once() {
    let once = Some(" a ".to_string()).trim_option();
    assert_eq!(once.clone().trim_option(), once);
}

#[test]
fn lookup_result_becomes_shell() {
    assert_eq!(shell_from_lookup::<()>(Ok("/bin/fish\n".to_string())), Some("/bin/fish".to_string()));
    assert_eq!(shell_from_lookup::<()>(Ok("".to_string())), None);
    assert_eq!(shell_from_lookup(Err::<String, &str>("no")), None);
}

#[test]
fn env_shell_wins() {
    match NativeSpawner::shell_from_env(Some("/bin/zsh".to_string())) {
        ShellLookup::Found(s) => assert_eq!(s, "/bin/zsh"),
        ShellLookup::FromPasswd => panic!("should use $SHELL"),
    }
    assert!(matches!(NativeSpawner::shell_from_env(None), ShellLookup::FromPasswd));
    let _ = NativeSpawner::new();
    let _ = FlatpakSpawner::new();
}

#[test]
fn toolbox_command_lines() {
    assert_eq!(ToolboxCommand::Shell { uid: 1000 }.argv("/app/bin/terms-toolbox"), vec!["/app/bin/terms-toolbox", "shell", "1000"]);
    assert_eq!(ToolboxCommand::Env.argv("tb"), vec!["tb", "env"]);
    assert_eq!(ToolboxCommand::HomeDirectory.argv("tb"), vec!["tb", "home-directory"]);
    assert_eq!(ToolboxCommand::ChildPid.argv("tb"), vec!["tb", "child-pid"]);
    assert_eq!(ToolboxCommand::ProcessOwner { pid: 7 }.argv("tb"), vec!["tb", "process-owner", "7"]);
    assert_eq!(ToolboxCommand::ProcessStatus { pid: 12 }.argv("tb"), vec!["tb", "process-status", "12"]);
    assert_eq!(ToolboxCommand::ProcessCmdline { pid: -3 }.argv("tb"), vec!["tb", "process-cmdline", "-3"]);
    assert_eq!(ToolboxCommand::Env.argument(), None);
}

#[test]
fn exit_watch_waits_for_its_pid() {
    assert_eq!(watch_exit(10, Some((11, 0))), ExitWatch::Waiting);
    assert_eq!(watch_exit(10, Some((10, 3))), ExitWatch::Exited(3));
    assert_eq!(watch_exit(10, None), ExitWatch::Exited(1));
}

#[test]
fn nonzero_toolbox_exit_is_an_error() {
    assert!(check_toolbox_exit(0).is_ok());
    match check_toolbox_exit(256) {
        Err(TermsError::Unknown(msg)) => assert_eq!(msg, "Toolbox command exited with status 256"),
        other => panic!("{other:?}"),
    }
    assert_eq!(toolbox_output("  1234\n"), "1234");
}

#[test]
fn toolbox_lives_under_bin() {
    assert_eq!(toolbox_path("/app"), "/app/bin/terms-toolbox");
    assert_eq!(toolbox_path("/app/"), "/app/bin/terms-toolbox");
    assert_eq!(toolbox_path(""), "bin/terms-toolbox");
    let expected = std::path::PathBuf::from("/var/lib/flatpak/app/x/current/active/files").join("bin").join(TOOLBOX);
    assert_eq!(toolbox_path("/var/lib/flatpak/app/x/current/active/files"), expected.to_string_lossy());
    assert_eq!(FLATPAK_INFO, "/.flatpak-info");
    assert_eq!(DEFAULT_SHELL, "/bin/sh");
}

#[test]
fn env_from_yaml_keeps_string_entries() {
    let env = FlatpakSpawner::env_from_output("HOME: /home/me\nLANG: C.UTF-8\n").unwrap();
    assert_eq!(env, vec![("HOME".to_string(), "/home/me".to_string()), ("LANG".to_string(), "C.UTF-8".to_string())]);
    let env = FlatpakSpawner::env_from_output("A: 1\nB: b\n").unwrap();
    assert_eq!(env, vec![("B".to_string(), "b".to_string())]);
    assert!(matches!(FlatpakSpawner::env_from_output("- a\n- b\n"), Err(TermsError::SerdeError(_))));
}

#[test]
fn env_yaml_round_trips() {
    let vars = vec![
        ("PATH".to_string(), "/usr/bin:/bin".to_string()),
        ("N".to_string(), "12".to_string()),
        ("EMPTY".to_string(), "".to_string()),
        ("Q".to_string(), "a: b # c".to_string()),
    ];
    let text = env_to_yaml(&vars).unwrap();
    assert_eq!(FlatpakSpawner::env_from_output(&text).unwrap(), vars);
}

#[test]
fn child_env_assignments() {
    let env = vec![("TERM".to_string(), "xterm-256color".to_string()), ("X".to_string(), "a=b".to_string())];
    assert_eq!(NativeSpawner::env_assignments(&env), vec!["TERM=xterm-256color", "X=a=b"]);
}

#[test]
fn flatpak_outputs() {
    assert_eq!(FlatpakSpawner::working_dir_from_output(" /home/me \n"), "/home/me");
    assert_eq!(FlatpakSpawner::foreground_pid_from_output("4242").unwrap(), 4242);
    assert!(matches!(
        FlatpakSpawner::foreground_pid_from_output("42x"),
        Err(TermsError::ParseIntError(IntErrorKind::InvalidDigit))
    ));
    assert!(matches!(FlatpakSpawner::foreground_pid_from_output(""), Err(TermsError::ParseIntError(IntErrorKind::Empty))));
}

#[test]
fn printed_pid_reads_back() {
    for pid in [1, 4242, i32::MAX, -1] {
        let printed = format!("{}\n", pid);
        assert_eq!(FlatpakSpawner::foreground_pid_from_output(&toolbox_output(&printed)).unwrap(), pid);
    }
}

#[test]
fn spawner_follows_the_sandbox() {
    assert_eq!(spawner_kind(true), SpawnerKind::Flatpak);
    assert_eq!(spawner_kind(false), SpawnerKind::Native);
}

#[test]
fn env_later_value_of_a_name_wins() {
    let env = FlatpakSpawner::env_from_output("A: one
!x A: two
B: b
").unwrap();
    assert_eq!(env, vec![("A".to_string(), "two".to_string()), ("B".to_string(), "b".to_string())]);
}

#[test]
fn toolbox_runs_in_root_with_pipe_as_stdout() {
    let hc = toolbox_host_command("/app/bin/terms-toolbox", ToolboxCommand::ChildPid, vec![(3, 17), (1, 5)], 9);
    assert_eq!(hc.cwd, "/");
    assert_eq!(hc.argv, vec!["/app/bin/terms-toolbox".to_string(), "child-pid".to_string()]);
    assert_eq!(hc.fds, vec![(3, 17), (1, 9)]);
    let hc = toolbox_host_command("/t", ToolboxCommand::Shell { uid: 1000 }, vec![], 4);
    assert_eq!(hc.argv, vec!["/t".to_string(), "shell".to_string(), "1000".to_string()]);
    assert_eq!(hc.fds, vec![(1, 4)]);
}

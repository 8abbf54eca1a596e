use terms::libc_util::map_error;
use terms::toolbox::{
    passwd_line_filter, process_cmdline_path, process_stat_path, shell_from_passwd_line, user_shell_in,
    ToolboxError,
};

fn unknown(r: Result<String, ToolboxError>) -> String {
    match r {
        Err(ToolboxError::Unknown(msg)) => msg,
        other => panic!("expected an Unknown error, got {other:?}"),
    }
}

#[test]
fn shell_is_seventh_field_trimmed() {
    let r = shell_from_passwd_line("root:x:0:0:root:/root:/bin/bash");
    assert_eq!(r.unwrap(), "/bin/bash");
    let r = shell_from_passwd_line("dirk:x:1000:1000:Dirk:/home/dirk: /usr/bin/fish \r");
    assert_eq!(r.unwrap(), "/usr/bin/fish");
    let r = shell_from_passwd_line("a:b:c:d:e:f:g:h");
    assert_eq!(r.unwrap(), "g");
}

#[test]
fn short_passwd_line_is_an_error() {
    let msg = unknown(shell_from_passwd_line("a:b"));
    assert_eq!(msg, "Could not parse user line from passwd line a:b");
    let msg = unknown(shell_from_passwd_line(""));
    assert_eq!(msg, "Could not parse user line from passwd line ");
}

#[test]
fn filter_compares_the_fourth_field() {
    let f = passwd_line_filter(1000);
    assert!(f(&Ok("dirk:x:1000:1000:Dirk:/home/dirk:/bin/zsh".to_string())));
    assert!(f(&Ok("other:x:1001:1000:O:/home/o:/bin/sh".to_string())));
    assert!(!f(&Ok("dirk:x:1000:1001:Dirk:/home/dirk:/bin/zsh".to_string())));
    assert!(!f(&Ok("a:b:c".to_string())));
    assert!(!f(&Ok("a:b:c:01000".to_string())));
    assert!(!f(&Err(std::io::Error::new(std::io::ErrorKind::Other, "broken"))));
}

#[test]
fn user_shell_takes_first_matching_line() {
    let passwd = "root:x:0:0:root:/root:/bin/bash\nbroken:1000\nme:x:1000:1000::/home/me:/bin/zsh\nyou:x:1000:1000::/home/you:/bin/fish\n";
    assert_eq!(user_shell_in(passwd, 1000).unwrap(), "/bin/zsh");
    assert_eq!(user_shell_in(passwd, 0).unwrap(), "/bin/bash");
}

#[test]
fn user_shell_reports_missing_user() {
    let passwd = "root:x:0:0:root:/root:/bin/bash\n";
    assert_eq!(unknown(user_shell_in(passwd, 42)), "User 42 not found in passwd file");
    assert_eq!(unknown(user_shell_in("", 0)), "User 0 not found in passwd file");
}

#[test]
fn user_shell_reports_short_matching_line() {
    let passwd = "x:y:z:7\n";
    assert_eq!(unknown(user_shell_in(passwd, 7)), "Could not parse user line from passwd line x:y:z:7");
}

#[test]
fn proc_paths() {
    assert_eq!(process_stat_path(42), "/proc/42/stat");
    assert_eq!(process_cmdline_path(1), "/proc/1/cmdline");
    assert_eq!(process_stat_path(-1), "/proc/-1/stat");
}

#[test]
fn map_error_on_minus_one() {
    assert!(map_error(-1, 5).is_err());
    assert_eq!(map_error(0, 5).unwrap(), 5);
    assert_eq!(map_error(3, "fd").unwrap(), "fd");
    assert_eq!(map_error(-2, ()).unwrap(), ());
}

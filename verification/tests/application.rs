use terms::application::{handle_local_options, LocalOptionsOutcome};

#[test]
fn version_flag_ends_the_start() {
    let r = handle_local_options(true, Some("/tmp".to_string()), Some("htop".to_string()));
    assert_eq!(r, LocalOptionsOutcome::ExitSuccess);
}

#[test]
fn command_and_directory_are_kept() {
    let r = handle_local_options(false, Some("/tmp".to_string()), Some("htop".to_string()));
    assert_eq!(
        r,
        LocalOptionsOutcome::Continue { command: Some("htop".to_string()), directory: Some("/tmp".to_string()) }
    );
}

#[test]
fn absent_options_stay_absent() {
    let r = handle_local_options(false, None, None);
    assert_eq!(r, LocalOptionsOutcome::Continue { command: None, directory: None });
}

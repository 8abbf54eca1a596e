//! What the application does with the options given on its command line
//! before it starts.
use vstd::prelude::*;

verus! {

/// What becomes of a start of the application once its local options are
/// read.
#[derive(Debug, PartialEq, Eq)]
pub enum LocalOptionsOutcome {
    /// `--version` was given: the version has been printed, and the process
    /// exits with success without opening a window.
    ExitSuccess,
    /// The start goes on; the first window runs `command` (when given) in
    /// `directory` (when given).
    Continue { command: Option<String>, directory: Option<String> },
}

/// The decision on the local options `--version`, `--working-directory` and
/// `--command`: the version flag ends the start at once, whatever else was
/// given; otherwise the command and the directory are kept for the first
/// window, each as it was given or as absent.
pub fn handle_local_options(version: bool, working_directory: Option<String>, command: Option<String>) -> (r:
    LocalOptionsOutcome)
    ensures
        version ==> r is ExitSuccess,
        !version ==> (r matches LocalOptionsOutcome::Continue { command: c, directory: d } && c.deep_view()
            == command.deep_view() && d.deep_view() == working_directory.deep_view()),
{
    if version {
        return LocalOptionsOutcome::ExitSuccess;
    }
    LocalOptionsOutcome::Continue { command, directory: working_directory }
}

} // verus!

//! Host-side logic of the Terms terminal emulator: passwd and `/proc`
//! lookups, the flatpak toolbox protocol, how a terminal's child process is
//! spawned, and the decisions behind the keyboard, shortcut and style
//! controls of the user interface.
use vstd::prelude::*;

pub mod application;
pub mod libc_util;
pub mod setup;
pub mod shortcuts;
pub mod spawn;
pub mod style;
pub mod terminal;
pub mod text;
pub mod thumbnail;
pub mod toolbox;
pub mod util;

verus! {

} // verus!

//! A supervisor for a fixed set of named child processes, each attached to a
//! pseudo-terminal: sessions hold a terminal emulator fed by the child's
//! output, a bounded queue of pending input, and a resize flag, while a
//! focus-tracked list routes keystrokes to exactly one session.

use vstd::prelude::*;

pub mod emulator;
pub mod input;
pub mod list;
pub mod process;
pub mod procfile;
pub mod queue;
pub mod session;
pub mod text;

pub use input::{KeyPress, Step, TermEvent};
pub use list::List;
pub use process::ProcessGroup;
pub use procfile::{parse, ConfigError, Process};
pub use queue::{InputError, InputQueue};
pub use session::ProcessContainer;

verus! {

} // verus!

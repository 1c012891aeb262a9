//! The commands that act on one task, under one name.
pub use crate::commands::items::{check, fail, log, note, retry, set_goal, set_title};
pub use crate::commands::lifecycle::{cancel, delete, done, move_to, relocate};
pub use crate::commands::run::{attach_command, codex_status_from_state, logs, run, AttachCommand};
pub use crate::commands::start::{create_pr, start};
pub use crate::commands::summary::summary;

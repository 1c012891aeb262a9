//! A journal of LLM-assisted tasks: task documents and their checklists, the
//! store that holds them, their projections to GitHub, and the rules of the
//! commands and of the dashboard.
pub mod commands;
pub mod ctx;
pub mod facts;
pub mod gh;
pub mod gitx;
pub mod json;
pub mod paths;
pub mod projects;
pub mod read_laws;
pub mod resolve;
pub mod state;
pub mod store;
pub mod store_laws;
pub mod sync;
pub mod task;
pub mod text;
pub mod ui;
pub mod util;
pub mod write_laws;

pub use ctx::Ctx;

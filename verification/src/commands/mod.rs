//! The commands: what each wants done.
pub mod effects;
pub mod end_laws;
pub mod exec;
pub mod inbox_laws;
pub mod item_laws;
pub mod items;
pub mod laws;
pub mod lifecycle;
pub mod link_laws;
pub mod local;
pub mod local_laws;
pub mod plan;
pub mod run;
pub mod run_laws;
pub mod start;
pub mod start_laws;
pub mod storing;
pub mod summary;
pub mod summary_laws;
pub mod sync_cmd;
pub mod sync_laws;
pub mod syncing;

pub use items::assign_ids;

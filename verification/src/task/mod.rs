//! Task documents: frontmatter, checklist items, sections and the blocks that
//! are shared with GitHub.
pub mod around_laws;
pub mod block_laws;
pub mod doc;
pub mod doc_laws;
pub mod identity_laws;
pub mod item_laws;
pub mod items;
pub mod log_laws;
pub mod managed;
pub mod meant_laws;
pub mod op_laws;
pub mod ranges;
pub mod section_laws;
pub mod sections;

pub use doc::{DocError, Frontmatter, TaskDoc};
pub use items::{clear_failed, set_checked, set_failed, Item, ItemError};
pub use items::{delete_item, edit_item, ensure_item_ids, item_sections, scan_items};
pub use items::{FAILED_SENTINEL, FAIL_MARK};
pub use managed::{extract_managed, issue_projection, pr_projection, replace_managed, wrap_managed};
pub use sections::{append_item, append_log, body_from_remote, body_without_log};
pub use sections::{log_section, section_content, set_section_content, AGENT_LOG_HEADING};
pub use ranges::number_ranges;

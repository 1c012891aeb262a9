//! The dashboard: what it shows, and what its keys do.
pub mod app;
pub mod change;
pub mod edit_laws;
pub mod edits;
pub mod input;
pub mod key_laws;
pub mod keys;
pub mod laws;
pub mod loading;
pub mod markdown;
pub mod matching;
pub mod panes;
pub mod row;
pub mod screen;
pub mod show_laws;
pub mod style;
pub mod work;

pub use app::{App, Summarizing};
pub use keys::{ForcePush, ForceSurface, KeyCode, KeyEvent, StartMode, UiAction};
pub use markdown::render_markdown;
pub use panes::Pane;
pub use row::TaskRow;
pub use screen::{Overlay, Screen};
pub use style::{Color, Line, Span, Style};

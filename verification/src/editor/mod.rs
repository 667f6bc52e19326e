//! The note editor: a text buffer with a cursor, a selection, undo history,
//! literal find and a clipboard.
pub mod buffer;
pub mod clipboard;
pub mod highlight;
pub mod history;
pub mod laws;
pub mod rope;
pub mod search;
pub mod segment;
pub mod editing;

pub use clipboard::{Clipboard, ClipboardError};
pub use editing::{Editor, EditorCommand, EditorOutcome, EditorView, Motion, SnapshotView};
pub use highlight::HighlightLanguage;
pub use history::EDITOR_HISTORY_ENTRY_LIMIT;
pub mod syntax;
pub use syntax::{HighlightSpan, HighlightStyle};

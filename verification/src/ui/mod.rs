//! What the terminal screens show, as values: which rows of a list fit, where
//! a dialog sits, and the shortcut lines.
pub mod layout;
pub mod dialogs;
pub mod status;
pub mod editor_view;
pub mod home_view;

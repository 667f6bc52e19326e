pub mod editor;
pub mod text;
pub mod workspace;
pub mod catalog;
pub mod cli;
pub mod git;
pub mod note_output;
pub mod app;
pub mod ui;
pub mod runtime;

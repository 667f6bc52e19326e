//! The interactive application: what it keeps in flight and how the file
//! tree is browsed.
pub mod browser;
pub mod ids;
pub mod mutation;
pub mod keymap;
pub mod session;
pub mod laws;
pub mod overlay;
pub mod home;
pub mod state;

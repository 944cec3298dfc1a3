//! Verified core of the `tape` dotfile switcher.
//!
//! A tape is a directory of configuration entries; inserting it links those
//! entries into the user's config directory (backing up whatever was there),
//! and ejecting it removes the links and restores the backups.  This crate
//! holds the decisions and text formats of that process; the file system,
//! environment, process and terminal work is done by the caller.
pub mod debug;
pub mod eject;
pub mod error;
pub mod insert;
pub mod manifest;
pub mod path;
pub mod shell;
pub mod show;
pub mod state;
pub mod text;

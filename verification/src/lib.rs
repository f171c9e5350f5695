//! A dual-pane file manager core: browse a local directory tree and a remote
//! tree exposed over an SSH session side by side, and copy files or whole
//! subtrees between them.
//!
//! The crate holds the verified logic: path and listing models, the
//! navigation state machine, the recursive transfer planner and engine, and
//! the event dispatch rules.  Terminal rendering, argument handling and the
//! connection setup live outside the library.

pub mod app;
pub mod app_utils;
pub mod config;
pub mod dir_utils;
pub mod draw;
pub mod events;
pub mod file_transfer;
pub mod listing;
pub mod paths;
pub mod readdir;
pub mod sftp;
pub mod strutil;
pub mod tcp;

pub use paths::AbsPath;

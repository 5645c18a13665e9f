//! A local package manager's core: package indexes on disk, version
//! navigation, install and uninstall planning, and update detection.
//!
//! The filesystem, the network and processes are reached by the caller;
//! this library decides what to look at, what to do, and what the answer is.

pub mod config;
pub mod git;
pub mod install;
pub mod listing;
pub mod package;
pub mod packages;
pub mod path;
pub mod project;
pub mod uninstall;
pub mod update;

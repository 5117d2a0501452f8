//! Keeps configuration files ("dotfiles") in step between a manager
//! directory under version control and their live locations.
//!
//! The library decides; the caller performs the filesystem work that the
//! decisions name and hands back what it observed.
pub mod path;
pub mod file;
pub mod dir;
pub mod plan;
pub mod run;
pub mod dot;
pub mod driver;
pub mod content;
pub mod config;
pub mod args;

//! Verified core of a small tool that sets up and maintains C projects:
//! project configuration, dependency lists, cflags editing and the text of
//! the batch scripts that build, run and set up a project.

pub mod common;
pub mod text;
pub mod dependency;
pub mod script_builder;
pub mod cflags;
pub mod init;

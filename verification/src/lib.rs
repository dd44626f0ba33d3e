//! Creates project directories from reusable templates.
//!
//! A template names files to copy, variables whose values are put in place of
//! `${name}` placeholders in those files, and commands to run afterwards. The
//! library decides what a build consists of and in which order it happens; it
//! never touches the file system, asks the user or starts a program itself.
//! A build is a [`machine::Build`]: it is handed what the last request
//! brought and answers with the next request, until it has finished or
//! failed.

pub mod builder;
pub mod collect;
pub mod command;
pub mod config;
pub mod error;
pub mod laws;
pub mod machine;
pub mod path;
pub mod plan;
pub mod project;
pub mod store;
pub mod substitute;
pub mod template;
pub mod text;

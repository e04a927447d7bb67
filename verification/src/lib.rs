//! Pipelines of commands, `stage1 | stage2 | ... | stageN`, run as chains of
//! processes under supervision, and the registry by which another process
//! finds a running pipeline to stop or to list it.
//!
//! This library decides; it starts no process and touches no file. Its caller
//! does what the library asks for and reports back what came of it.

pub mod monitor;
pub mod pipeline;
pub mod registry;
pub mod runner;
pub mod text;
pub mod utils;

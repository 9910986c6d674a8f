//! Repository references and the plan for staging and launching a project.
//!
//! A reference such as `owner/repo/tree/branch/sub/folder` names a remote
//! repository, optionally a branch and a folder in it. This crate parses such
//! references, derives where the repository is staged and how the runtime is
//! invoked on it, and sequences the stage-and-launch run.

pub mod text;
pub mod reference;
pub mod laws;
pub mod error;
pub mod sequence;
pub mod plan;
pub mod runtime;

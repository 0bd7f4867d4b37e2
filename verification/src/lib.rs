//! Run a Buzz agent on another machine and keep it running there.
//!
//! The decisions of two programs live here: the provider, which turns a deploy
//! request into one ssh call, and the host, which owns the agent's process on
//! the machine that runs it.

pub mod agent;
pub mod effects;
pub mod files;
pub mod host;
pub mod json;
pub mod launch;
pub mod lists;
pub mod machine;
pub mod names;
pub mod programs;
pub mod provider;
pub mod quoting;
pub mod steps;
pub mod supervisor;
pub mod table;
pub mod text;

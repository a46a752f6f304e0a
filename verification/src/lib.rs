//! Driving a sandbox supervisor: the `isolate` command line, its reports,
//! its boxes, and the limits under which programs are compiled and run.
//!
//! The library decides and computes; it starts no process and touches no
//! file. Whoever calls it runs the supervisor with the argument vectors made
//! here and hands back what the supervisor left behind. The only questions
//! asked of the host are whether a path exists and what its canonical form
//! is.
//!
//! Three things are taken on trust, each stated where it is declared:
//! that `String::push` appends one character, that `str::to_lowercase`
//! depends on its argument alone, and that asking the host about a path
//! returns.

pub mod cli;
pub mod config;
pub mod decimal;
pub mod isolate;
pub mod runner;
pub mod text;
pub mod types;

pub use config::{Config, ConfigError, Language};
pub use isolate::{BoxPool, IsolateBox, IsolateError};
pub use runner::{
    CompileAndRunError, CompileError, CompileResult, ExecuteError, InteractiveError,
    InteractiveEvent, Runner,
};
pub use types::{
    ExecutionResult, ExecutionStatus, LimitExceeded, MountConfig, ResourceLimits, Seconds,
};

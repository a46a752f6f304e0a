//! Driving the sandbox supervisor: its command line, its reports, its boxes.

pub mod box_manager;
pub mod cgroup;
pub mod command;
pub mod command_laws;
pub mod error;
pub mod host;
pub mod meta;
pub mod process;

pub use box_manager::{BoxPool, IsolateBox};
pub use command::{IsolateAction, IsolateCommand};
pub use error::IsolateError;
pub use host::{resolve_command, validate_mounts};
pub use meta::{MetaFile, MetaParseError};

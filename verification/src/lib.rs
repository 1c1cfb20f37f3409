//! Native resource-handle library for a cooperative script host.
//!
//! Two registries hand out opaque integer handles for asynchronous OS
//! resources — child processes and filesystem watches — and let a
//! single-threaded host poll or wait for their results without losing
//! events or reading an output pipe twice.  Around them stand the small
//! deterministic helpers the same host uses: argument access, string
//! utilities, diff rendering, and log formatting.

pub mod args;
pub mod diff;
pub mod print;
pub mod shell;
pub mod strutil;
pub mod text;
pub mod watch;

//! Core of a sandboxed pipeline executor: the framed request/response
//! protocol, the file broker's state machine, the parent-side multiplexer
//! and the client of a stage, all free of I/O. Callers move the bytes; this
//! crate decides what they mean and what has to happen next.
//!
//! Beside the core stand the parts of the shell that are plain computation:
//! reading a pipeline and the broker's arguments, the wiring of stages, and
//! what the line utilities compute.

pub mod broker;
pub mod codes;
pub mod encoding;
pub mod frame;
pub mod help;
pub mod invocation;
pub mod laws;
pub mod lines;
pub mod message;
pub mod mux;
pub mod pipeline;
pub mod sed;
pub mod shell;
pub mod shim;
pub mod store;
pub mod table;
pub mod text;
pub mod tr;
pub mod wire;

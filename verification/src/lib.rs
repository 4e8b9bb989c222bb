//! Core library of the Airup init system: the service-supervisor state
//! machine, the milestone planner, the control-plane protocol, and the
//! configuration loader, each with a verified contract.
//!
//! All I/O (sockets, process spawning, signals, the file system) lives
//! outside this crate; the functions here compute decisions, plans and
//! messages from plain values.

pub mod command;
pub mod config;
pub mod control;
pub mod milestone;
pub mod registry;
pub mod resolver;
pub mod stage;
pub mod strutil;
pub mod supervisor;
pub mod toml_lite;
pub mod value;

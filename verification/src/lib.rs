//! The process table of a small kernel: creation of processes, waiting for
//! children, killing, and what is left to do when the last thread of a process
//! exits.

pub mod types;
pub mod model;
mod collect;
pub mod kproc;
pub mod table;
pub mod spawn;
pub mod wait;
pub mod exit;
pub mod laws;
pub mod effects;
pub mod history;

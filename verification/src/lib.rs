//! Bounded, concurrently drained byte buffering for the output of a child process.

pub mod args;
pub mod guarantees;
pub mod model;
pub mod names;
pub mod number;
pub mod policy;
pub mod ring;
pub mod script;
pub mod search;
pub mod stream;

//! The scheduling, strategy and board rules of an unattended coding-agent
//! runner, as verified functions over plain values.
//!
//! Everything that reads a clock, a database, a file or a process lives outside
//! this crate; it hands values in and carries out the decisions that come back.

pub mod db;
pub mod error;
pub mod instant;
pub mod json;
pub mod path;
pub mod runner;
pub mod scheduler;
pub mod startup;
pub mod strategy;
pub mod tasks;
pub mod testing;
pub mod text;
pub mod textmap;

//! The rules a task's row is held to.

pub mod dependencies;
pub mod links;
pub mod placing;
pub mod run_state;
pub mod service;
pub mod strategy;
pub mod types;

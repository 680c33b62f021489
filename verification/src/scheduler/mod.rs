//! What the run queue starts, when it tries again, and how much it may have in
//! flight.

pub mod attempts;
pub mod capacity;
pub mod claim;
pub mod inflight;
pub mod pass;
pub mod pause;
pub mod queue;
pub mod reconcile;
pub mod retry;
pub mod selection;
pub mod spread;
pub mod state;
pub mod window;

//! What a run is started with, what it reports, and what is made of it.

pub mod events;
pub mod outcome;
pub mod provider;

//! Stand-ins for what a test must not reach: an agent, its recordings, its
//! command line, a keychain, a repository.

pub mod cli;
pub mod credentials;
pub mod doctor;
pub mod fixtures;
pub mod provider;
pub mod repo;

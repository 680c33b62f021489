//! What a run spawns with: the defaults, the choices and the chain that decides
//! between them.

pub mod catalogue;
pub mod resolve;
pub mod settings;

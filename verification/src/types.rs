//! The gateway's resources and the policies that attach to them.

pub mod agent;
pub mod frontend;
pub mod laws;
pub mod llm;
pub mod policy;
pub mod traffic;

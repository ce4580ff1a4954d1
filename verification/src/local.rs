//! The local configuration and its conversion to binds, routes, policies and backends.

pub mod backend_laws;
pub mod backends;
pub mod conditional;
pub mod config;
pub mod convert;
pub mod error;
pub mod frontend;
pub mod frontend_laws;
pub mod hosts;
pub mod laws;
pub mod listener_laws;
pub mod listeners;
pub mod llm;
pub mod mcp;
pub mod migrate;
pub mod model_laws;
pub mod models;
pub mod policies;
pub mod policy_laws;
pub mod route_laws;
pub mod routes;
pub mod split;

//! The configuration store of an AI gateway, the conversion of its local configuration, and the
//! decisions it takes on requests that pass through external processors and MCP backends.

pub mod ext_proc;
pub mod json;
pub mod keyed;
pub mod local;
pub mod mcp;
pub mod proxy;
pub mod store;
pub mod target_table;
pub mod text;
pub mod types;

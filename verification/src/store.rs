//! The gateway's configuration as it is served: binds, routes, backends and the policies attached
//! to them.

pub mod binds;
pub mod laws;
pub mod model;
pub mod operations;
pub mod policies;
pub mod precedence;
pub mod queries;
pub mod selection;
pub mod sync;
pub mod updater;
pub mod xds;

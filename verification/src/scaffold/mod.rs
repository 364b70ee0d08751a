//! Scaffolding: new components, routes and server functions.
pub mod crate_root;
pub mod create;
pub mod laws;
pub mod mods;
pub mod names;
pub mod return_type;
pub mod routes;
pub mod templates;

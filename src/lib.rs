//! Administration of a pool of rotating upstream credentials: the admin
//! service that reports on the pool and acts on it, and the server of the
//! bundled management UI.

pub mod assets;
pub mod classify;
pub mod service;
pub mod text;
pub mod types;

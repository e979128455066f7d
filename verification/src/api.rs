//! The rules of the boundary to the outside: what a query means where it
//! leaves something out, which names are accepted, and how the answers of
//! the application subsystem are put together for a caller.

pub mod applications;
pub mod docker;
pub mod pull_stream;
pub mod services;

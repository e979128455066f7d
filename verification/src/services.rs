//! The application subsystem: the template catalog, the port preflight, the
//! installation and the instances, with what is exchanged with the container
//! engine.

pub mod application;
pub mod docker;
pub mod install;
pub mod install_proofs;
pub mod lifecycle;
pub mod preflight;
pub mod preflight_proofs;

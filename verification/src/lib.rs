//! The verified core of a host-management panel: turning a catalog of
//! deployment templates into running containers without colliding on host
//! ports.
//!
//! Nothing here talks to the container engine or to the host. Whatever has
//! to be asked of them is handed to the caller as a step to carry out, and
//! the answer is taken back as a plain value.

pub mod api;
pub mod error;
pub mod services;
pub mod strmap;
pub mod text;

//! The Groves: privileged Ring 1 services, their registry and lifecycle.
pub mod service;
pub mod manager;
pub mod lifecycle;

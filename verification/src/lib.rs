//! Core of a key management service: key lifecycle and material engine.
//!
//! The crate models master keys, their versions and aliases, guards every
//! state transition behind a fixed compatibility matrix, runs the two-phase
//! wrapped-import protocol for externally generated key material, and keeps
//! hot key metadata in a read-through cache that is invalidated on every
//! write path.

pub mod cache;
pub mod crypto;
pub mod errors;
pub mod import;
pub mod laws;
pub mod lifecycle;
pub mod models;
pub mod service;
pub mod store;
pub mod strutil;
pub mod types;

//! Core of a URL-shortening service: token generation, the keyed record
//! store with its uniqueness and ordering invariants, and the shortening
//! and redirect-resolution services.

pub mod errors;
pub mod laws;
pub mod models;
pub mod service;
pub mod store;
pub mod token;

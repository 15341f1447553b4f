//! A small entity store with two numeric attributes, health and regeneration,
//! and the per-tick steps that run over it.
//!
//! The store is generic in the number type `T` of its attributes. Arithmetic on
//! `T` and the text of a `T` are supplied by the caller as functions; every
//! contract is stated relative to what those functions promise.

pub mod attributes;
pub mod laws;
pub mod store;
pub mod systems;

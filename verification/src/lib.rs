//! A safety layer around a two-dimensional rigid-body physics engine.
//!
//! The engine owns opaque records for spaces, bodies and shapes and knows
//! nothing of aliasing or lifetimes. This crate holds the handle layer: it
//! counts the handles that alias each record, keeps every record alive for
//! as long as anything refers to it, attaches tagged extension data to the
//! records, and decides which engine calls are to be made and in which
//! order. The caller performs the calls.

pub mod scalar;
pub mod user_data;
pub mod engine;
pub mod world;
pub mod body;
pub mod shape;
pub mod space;
pub mod arbiter;
pub mod util;

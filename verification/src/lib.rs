//! A bridge between a foreground context that owns the user interface and a
//! background context that owns a real-time simulation.
//!
//! The foreground side attaches the listeners of `listeners` and turns the raw
//! pointer and wheel input that they read into a small closed set of events
//! (`event`) with the help of an input normalizer (`normalizer`). An event
//! has a wire form of its own (`codec`). The background side turns each
//! event into what the simulation is told (`host`).

pub mod codec;
pub mod event;
pub mod host;
pub mod listeners;
pub mod normalizer;

//! Parameter-synchronization hub for a digital mixing console and its
//! control surfaces.
//!
//! The heart of the crate is the orchestrator: a cache of last-known
//! parameter values keyed by hierarchical path, a registry of providers
//! (the console is always identity 0), and the fan-out and bounded-wait
//! read algorithms that keep every endpoint's view of each parameter
//! consistent.  Everything that performs I/O (network, MIDI hardware,
//! timers) lives outside this crate; the functions here compute the
//! decisions and byte-level messages, and state exactly what they do.

pub mod cache;
pub mod data;
pub mod meters;
pub mod midi;
pub mod orchestrator;
pub mod settings;
pub mod value;

pub use orchestrator::{Interface, Orchestrator};
pub use value::Value;

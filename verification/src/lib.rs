//! A patch matrix for a MIDI sequencer subsystem, without the subsystem.
//!
//! The crate holds what the application decides and computes: the model of
//! ports and routing edges, the snapshot that a read of the subsystem gives,
//! the store that the background synchronizer and the user interface share,
//! the loop of the synchronizer, the toggle of a connection that never closes
//! a feedback loop, and the geometry and the picture of the window. Reading
//! the subsystem, changing it and drawing are left to the caller, who
//! performs what the crate asks for and reports what happened.

pub mod address;
pub mod config;
pub mod error;
pub mod graphics;
pub mod laws;
pub mod layout;
pub mod mutator;
pub mod reach;
pub mod render;
pub mod seq_facts;
pub mod snapshot;
pub mod state;
pub mod store;
pub mod sync;
pub mod text;
pub mod theme;

//! Verified models of a question-and-answer voting contract and of a few
//! small runtime modules (a configurable storage module, two modules that
//! couple to it, a block timestamp module and a weight table).
//!
//! Chain storage, origins and events are handed in and out as plain values:
//! each operation takes the current state and the caller, and returns the new
//! state together with the event it emits or the error it refuses with.
pub mod text_map;
pub mod asignment5;
pub mod frame;
pub mod template;
pub mod loosely_coupling;
pub mod tightly_coupling;
pub mod my_timestamp;
pub mod kitties_weights;

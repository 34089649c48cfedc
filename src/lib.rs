//! Control plane for driving a remote show-control device from MIDI input.
//!
//! The library holds the MIDI event model and trigger matching, the wire codec
//! for the controller's line protocol, the decisions of a protocol session and
//! of the action executor, and the versioned document store.
pub mod bytes;
pub mod codec;
pub mod executor;
pub mod matcher;
pub mod midi_log;
pub mod models;
pub mod persistence;
pub mod selection;
pub mod session;
pub mod text;
pub mod versioned_data;
pub mod versioning;

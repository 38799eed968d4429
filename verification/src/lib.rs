//! A local, single-user goal-tracking data layer.
//!
//! The library keeps the authoritative state of four entities — goals,
//! checklist items, dashboard layout slots, and a single notes document —
//! and exposes one verified operation per user-facing command.  The calling
//! shell owns all I/O (reading the clock, persisting rows, rendering); it
//! hands this layer plain values and gets plain values back.

pub mod error;
pub mod laws;
pub mod model;
pub mod schema;
pub mod store;
pub mod types;

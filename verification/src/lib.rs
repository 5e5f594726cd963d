//! Tracks the set of open toplevel windows reported by a display server,
//! resolves which window is currently active, and decides exactly when a
//! change notification is due.
//!
//! The crate is the aggregator core alone: it consumes a stream of partial,
//! out-of-order, per-window update events, consolidates them into consistent
//! per-window records, and exposes read-only snapshots (`list`, `get_active`)
//! plus a close action.  Transports (the windowing protocol on one side, the
//! inter-process call interface on the other) stay outside; they hand events
//! in and carry signals and actions out as plain values.

pub mod event;
pub mod laws;
pub mod store;
pub mod toplevel;
pub mod topmaid;

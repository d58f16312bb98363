//! A fixed-capacity rolling buffer: an append-only view over a fixed-length
//! ring that silently overwrites its oldest element on overflow, together
//! with the queries that read it back in logical order.
//!
//! With capacity zero the buffer degenerates into a plain growable list and
//! never evicts anything.

pub mod buffer;
pub mod laws;
pub mod traits;

//! Verified core of a readiness-based stream driver and of the service
//! composition types around it.
//!
//! * [`flags`]: the per-stream interest bits.
//! * [`slab_store`]: the `slab` collection that holds the streams, behind trusted items.
//! * [`driver`]: the stream registry, its reference counting and the decisions
//!   taken on readiness events.
//! * [`laws`]: properties that relate several registry operations.
//! * [`service`], [`chain`], [`utils`]: service traits and builder types.

pub mod flags;
pub mod slab_store;
pub mod driver;
pub mod service;
pub mod chain;
pub mod utils;
pub mod laws;

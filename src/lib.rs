//! Snowflake identifiers: 64-bit values that pack a millisecond timestamp, the
//! identity of the generator (datacenter and worker) and a per-millisecond
//! sequence number, so that one generator hands out strictly increasing values.
mod clock;
pub mod layout;
pub mod worker;

pub use layout::{compose, decompose, IdParts};
pub use worker::{IdError, SnowFlakeWorker, Step};

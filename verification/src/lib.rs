//! Master side of a master/slave clock-synchronization scheme.
//!
//! The library tracks remote nodes ("slaves") in a registry, estimates each
//! slave's clock offset from round-trip timing measurements, aggregates the
//! offsets of one synchronization cycle into an average adjustment, and
//! encodes and decodes the wire messages of the protocol.

mod clock;
pub mod codec;
pub mod message_handler;
pub mod slave_management;
pub mod time_sync;

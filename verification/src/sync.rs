//! Clock synchronisation between the server loop clock and the local clocks.

pub mod clock;
pub mod time;

pub use clock::{ClockState, ClockSync, SyncQuality};

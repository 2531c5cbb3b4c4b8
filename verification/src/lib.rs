//! Driver for the VEML6070 UVA light sensor on a two-wire serial bus.
//!
//! The sensor has a single write-only command register. The driver keeps a
//! shadow of it, changes one field at a time by a masked update of the shadow,
//! and sends the result in one bus write; the shadow follows only a write that
//! succeeded.

pub mod bus;
pub mod driver;
pub mod register;
pub mod state;

pub use bus::{Error, Transfer, Transport};
pub use driver::Veml6070;
pub use register::{AckThreshold, IntegrationTime, Operation};
pub use state::State;

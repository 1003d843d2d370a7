//! Ecobee thermostats and their room sensors over HomeKit, on the local network.
//!
//! The host makes the requests, keeps the clock and speaks HomeKit's encrypted transport; this
//! library decides what to ask for and what the answers mean. [`driver::EcobeeHap`] is what the
//! host talks to: a device comes up, a command arrives, an answer comes back, someone sets a
//! thermostat up. Each takes plain values and returns plain values.
//!
//! One read of the accessory database describes a thermostat and every sensor that it bridges.
//! So there is no table of characteristic numbers to keep: the numbers that a write needs are
//! remembered from the last read.
//!
//! Every function says in its contract what it returns, over the definitions in [`model`]. The
//! properties that span several functions are proved in [`laws`].

pub mod accessory;
pub mod double;
pub mod driver;
pub mod host;
pub mod json;
pub mod laws;
pub mod model;
pub mod report;
pub mod request;
pub mod setup;
pub mod text;

pub use crate::driver::EcobeeHap;

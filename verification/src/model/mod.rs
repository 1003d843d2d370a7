//! What the driver does, over mathematical values.
pub mod accessory;
pub mod driver;
pub mod host;
pub mod report;
pub mod request;
pub mod setup;

//! What holds of the driver as a whole.
//!
//! `plain` reads documents off their JSON, and `requests`, `wishes`, `readings` and `pairings` say
//! in those words what the driver sends, does on a command, tells of an answer, and offers in
//! setup; `parts` says what the small operations do. The other modules relate calls to each other.

pub mod commands;
pub mod names;
pub mod numbering;
pub mod numbers;
pub mod pairings;
pub mod parts;
pub mod plain;
pub mod polls;
pub mod readings;
pub mod reads;
pub mod requests;
pub mod setups;
pub mod wishes;

//! Parsing of the device-description XML dialect into normalized entities.

pub mod error;
pub mod field;

//! A register-level driver for the RFM95 family of LoRa transceivers.
//!
//! The driver talks to the chip through a [`connection::RegisterConnection`], one register
//! transaction per call, and records every field-level register operation in a ghost log, so
//! that each method's contract states exactly which registers it reads and writes.
pub mod error;
pub mod registers;
pub mod types;
pub mod airtime;
pub mod frequency;
pub mod connection;
pub mod config;
pub mod driver;
pub mod oplog;
pub mod signal;

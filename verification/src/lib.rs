//! Verified core of a container TCP-connection inventory.
//!
//! The library decodes the kernel's fixed-format TCP connection table as it
//! is read out of a container, normalizes addresses and states into
//! structured records, and aggregates the records of a whole container fleet
//! into one report with per-container isolation of failures.
//!
//! The surrounding process (transport to the containers, metrics export,
//! command line) stays outside; it hands this library plain bytes and
//! strings and takes structured reports back.

pub mod codec;
pub mod collector;
pub mod fleet;
pub mod hex;
pub mod parser;
pub mod record;
pub mod state;
pub mod text;

//! Decoder for the periodic plaintext ASCII telegrams that a smart utility
//! meter emits on its local metering port.
//!
//! A telegram (frame) starts at a `/` marker and runs through a `!` marker
//! followed by four uppercase hexadecimal checksum digits. The decoder scans
//! a byte buffer for frames, verifies the CRC-16 checksum, parses each data
//! line as an OBIS object and folds the objects into one immutable [`types::State`]
//! snapshot per telegram. Malformed telegrams yield a typed error and never
//! block later telegrams in the same buffer.

pub mod scan;
pub mod types;
pub mod crc;
pub mod timestamp;
pub mod obis;
pub mod decode;
pub mod laws;

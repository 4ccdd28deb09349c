//! Verified core of a GPS-to-MQTT bridge.
//!
//! The library reassembles NMEA-0183 sentences from a line stream, decodes
//! the sentence kinds the bridge consumes into publish commands, filters
//! repeated values through a publish cache, and drives the serial-link
//! reconnect state machine. All I/O stays outside the library; the functions
//! here are pure and fully specified.

pub mod assembler;
pub mod cache;
pub mod codec;
pub mod config;
pub mod decoder;
pub mod sentence;
pub mod strutil;
pub mod supervisor;

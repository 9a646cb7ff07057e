//! Verified core of a Modbus protocol stack: data models, PDU/ADU encoding
//! and decoding, client request builders and response parsers, and the
//! transport-side framing decisions.

pub mod errors;
pub mod function_codes;
pub mod data_unit;
pub mod transport;
pub mod models;
pub mod client;
pub mod tcp_framing;
pub mod ffi;
pub mod server;
pub mod app;
pub mod bounded;
pub mod serial_config;
pub mod maps;

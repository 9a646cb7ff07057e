//! Client-side services: request builders and response parsers.

pub mod coils;
pub mod services;

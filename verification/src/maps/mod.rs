//! Server-side data models: maps from Modbus addresses to coil and
//! register values, their layout rules, and the routing of requests across
//! several maps of one application.

pub mod app_maps;
pub mod field_map;
pub mod fields;
pub mod layout;

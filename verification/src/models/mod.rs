//! Modbus data models: coils, discrete inputs, registers and FIFO queues.

pub mod bits;
pub mod coil;
pub mod discrete_input;
pub mod register;
pub mod fifo_queue;

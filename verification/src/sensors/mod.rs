//! Sensors: decoding of what the devices send, and playback of recorded flights.

pub mod dataset;
pub mod rc_sbus;
pub mod registers;
pub mod stack;
pub mod virtual_sensors;

//! Verified core of a flight-control application layer.
//!
//! The board runs an RTOS that hands the application a table of services. The
//! decisions of the application (command routing, mission handshake, log ring,
//! frame reassembly, receiver decoding, scheduling) stand here as functions on
//! plain values; the tasks that perform input and output drive them.

pub mod abi;
pub mod bytes;
pub mod demo;
pub mod device;
pub mod flyctrl;
pub mod flyctrl_task;
pub mod intg_test;
pub mod ioctl;
pub mod log;
pub mod log_task;
pub mod real32;
pub mod sensors;
pub mod text;
pub mod usbtest;
pub mod vehicle;

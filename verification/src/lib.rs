//! Core of a driver that links a Saitek switch panel to a flight simulator.
//!
//! A panel reading is a packed 24-bit snapshot of every control's position.
//! This library tracks the previous and current snapshot, detects which bits
//! changed between reads, and maps each change to a named simulator command:
//! toggle switches and the gear lever go through a generic edge-detection
//! path, while the five-position rotary magneto selector carries extra state,
//! including a pulsed starter signal tied to its "start" position.
//!
//! The mapping from physical controls to command names is loaded from an XML
//! configuration document. Everything around the library — device access,
//! the datagram transport towards the simulator, the blocking read loop —
//! stays outside; the library only turns values into values.

pub mod config;
pub mod laws;
pub mod simulator;
pub mod switch_constants;
pub mod switch_device;

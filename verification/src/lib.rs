//! A bridge between a sensor that reports over a byte stream in fixed-length
//! binary frames and a server of registers.
//!
//! The library decides; it performs no input or output itself. Its caller owns
//! the connections, does what the library asks for and reports how it went.
//!
//! * [`message`] is the decoded report of the sensor.
//! * [`wire`] reads the little-endian integers of a frame.
//! * [`frame`] checks the header of a 27-byte frame and decodes its payload.
//! * [`reader`] collects a frame from the pieces in which a stream delivers
//!   it.
//! * [`forward`] turns a message into its six register writes and stops at
//!   the first that fails.
//! * [`supervisor`] keeps the connection to the sensor: it reconnects after
//!   every error.

#![allow(unused_imports)]

pub mod forward;
pub mod frame;
pub mod message;
pub mod reader;
pub mod supervisor;
pub mod wire;

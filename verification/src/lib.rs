//! A command and response link between a host and an embedded controller,
//! and the controller that the commands drive.
//!
//! Values go over the serial line as frames: the bytes of the value, their
//! CRC-32, byte-stuffed so that a zero byte ends the frame and occurs nowhere
//! else. The device collects received bytes in a bounded accumulator, opens
//! each frame, applies its command to a blinker with two timers, a time
//! reference and an RGB light, and answers with a frame of its own. The
//! library decides and computes; its callers read and write the line and
//! the hardware.
//!
//! What is stated of byte stuffing, the checksum, the calendar and gamma
//! correction is believed of the crates that do them, not proved: see the
//! functions marked `external_body`.

pub mod blinker;
pub mod broker;
pub mod codec;
pub mod date_time;
pub mod protocol;
pub mod rgb;
pub mod shift_register;
pub mod tap_tempo;
pub mod time_reference;
pub mod wire;

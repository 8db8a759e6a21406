//! Transmitter-side driver for a fixed-layout, unidirectional 433 MHz
//! on-off-keying remote-control protocol.
//!
//! A semantic command (channel, command kind, strength, duration) is turned
//! into a bit-exact sequence of pulse-width timings ([`frame`]), which is then
//! driven onto a digital output line, repeated back-to-back until a requested
//! wall-clock duration has elapsed ([`transmitter`]). The physical pin, the
//! blocking microsecond delay and the monotonic clock are consumed through
//! narrow capability traits ([`capability`]); verified in-memory
//! implementations of those traits live in [`recorder`].

pub mod capability;
pub mod frame;
pub mod recorder;
pub mod transmitter;

//! Pulse timings for the infrared remote protocol of Midea air conditioners.
//!
//! A command (power, mode, fan speed, temperature) is turned into the list of
//! durations, in microseconds, for which an infrared transmitter has to hold
//! its output high and low in turn.
//!
//! * [`pulse`] is the run-length encoder: it merges consecutive requests to
//!   hold one level into a single run.
//! * [`grey`] is the reflected binary code used for the temperature.
//! * [`command`] holds the settings of a command and packs them into the
//!   payload bytes.
//! * [`protocol`] knows the framing: lead-in, byte pairs, stop pulse and the
//!   repetition of frames.
//! * [`line`] writes the durations as a line of text.

pub mod command;
pub mod grey;
pub mod line;
pub mod protocol;
pub mod pulse;

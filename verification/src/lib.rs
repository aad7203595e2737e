//! Codec and palette matcher for a grid-based LED control surface driven
//! over MIDI.
//!
//! The library turns high-level lighting commands (light a button, a row, a
//! column, scroll text, flash, pulse) into the exact byte sequences the
//! device firmware understands, validating every field before a single byte
//! is produced, and it resolves arbitrary RGB colors to the device's fixed
//! color palette. Transport (opening MIDI ports, writing the bytes out) is
//! left to the caller.

pub mod codec;
pub mod color;

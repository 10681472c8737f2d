//! Converts a line-oriented textual log of signal value changes into the
//! VCD (value change dump) wire format.
//!
//! The crate parses each input line into a typed value-change event, drops
//! lines that do not match the grammar, sorts the surviving events by
//! timestamp with a stable order, infers each signal's wire type and width
//! from its first occurrence, assigns compact wire identifiers from a bounded
//! space, and emits a VCD header followed by a chronologically ordered body.

pub mod registry;
pub mod scan;
pub mod sort;
pub mod value_change;
pub mod convert;
pub mod decode;
pub mod encoder;
pub mod vcd_text;
pub mod writer;

//! Splitting a string into font runs and preparing them for glyph shaping.
//!
//! The platform text-layout and glyph-shaping services are driven by an
//! unverified front end; this crate holds the logic between those calls:
//! the 16-bit code-unit index mapping, the validation and collection of
//! reported runs, the script-tag heuristic, and the resource accounting
//! of a shaping session.

pub mod runs;
pub mod shaping;
pub mod utf16;

//! Layout resolution and ANSI-safe rendering for a terminal splash screen
//! with a positioned, masked password field.
//!
//! The crate turns resolution-independent placement specifications into
//! concrete screen coordinates, clips possibly ANSI-colored text against a
//! terminal grid of unknown size without cutting an escape sequence in half,
//! composites multi-line artwork blocks, lays out the decorative frame of the
//! password field, and decides, keystroke by keystroke, how a masked input
//! session echoes. All output is emitted into a caller-supplied `String`
//! buffer; the surrounding program owns the terminal itself.

pub mod clip;
pub mod compose;
pub mod emit;
pub mod frame;
pub mod input;
pub mod layer;

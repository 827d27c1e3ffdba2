//! A verified interpreter for a small 8-bit virtual machine with 4096 bytes
//! of memory, sixteen 8-bit registers, a sixteen-entry call stack, two
//! saturating countdown timers, a sixteen-key input latch and a 64x32
//! monochrome framebuffer.
//!
//! The machine executes a closed set of 35 two-byte instructions. The
//! interpreter owns all machine state and exposes a single `cycle` operation
//! that performs one fetch-decode-execute-timer step, together with read-only
//! views of the framebuffer and timers and a write entry point for the input
//! latch. Host concerns (rendering, key polling, reading program images from
//! disk) live outside this crate and talk to it through plain values.

pub mod chip;
pub mod decode;
pub mod font;
pub mod laws;
pub mod model;

pub use chip::Chip;
pub use font::FONT_ADDRESS;
pub use model::ChipError;

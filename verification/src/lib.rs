//! A text console on a linear 24-bit framebuffer that is negotiated with a
//! video co-processor over a property mailbox.
//!
//! The library never touches hardware. Every function works on plain values:
//! register words that the caller has read, request buffers that the caller
//! hands to the co-processor, and pixel memory that the handle owns.

pub mod console;
pub mod font;
pub mod framebuffer;
pub mod mailbox;
pub mod plane;
pub mod property;
pub mod screen;
pub mod uart;

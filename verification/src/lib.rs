//! An interpreter for a fixed 8-bit virtual machine: 4KB of memory, sixteen
//! 8-bit registers, a bounded call stack, a delay/sound timer pair, a
//! monochrome framebuffer and a 16-key input matrix, together with a pacing
//! controller that throttles execution to a configured instruction rate.

pub mod machine;
pub mod laws;
pub mod pacing;

//! A verified CHIP-8 virtual machine: a fetch-decode-execute interpreter for
//! the CHIP-8 instruction set (4 KiB of memory, 16 registers, a call stack,
//! two 60 Hz countdown timers, a 64x32 monochrome framebuffer and a 16-key
//! keypad). The instruction semantics are stated over a mathematical model of
//! the machine state and proved against it; presentation (window, audio,
//! command line) lives outside this library.

pub mod model;
pub mod virtual_machine;
pub mod laws;
pub mod rendering;
mod host;

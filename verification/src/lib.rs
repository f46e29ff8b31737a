//! A verified CHIP-8 virtual machine core.
//!
//! The library holds the architectural state of the interpreter (memory,
//! registers, call stack, timers, framebuffer), a pure instruction decoder,
//! and one verified handler per operation. Rendering, keyboard scanning and
//! file loading are left to the embedding program, which hands the core plain
//! values (a byte buffer for the program, a key bitmask, elapsed nanoseconds)
//! and reads plain values back (the pixel matrix, the timer values).

pub mod chip8;
pub mod decode;
pub mod display;
pub mod laws;
pub mod model;
mod rng;
pub mod scheduler;

pub use model::ExecError;
pub use model::LoadError;

//! A verified interpreter for a small 8-bit virtual machine: 4KB of memory,
//! sixteen 8-bit registers, a 16-slot call stack, two countdown timers, a
//! 64x32 monochrome display and a 16-key keypad. The host feeds it a program
//! image and then drives it one fetch-decode-execute cycle at a time.

pub mod cycle;
pub mod decode;
pub mod draw;
pub mod font;
pub mod laws;
pub mod ops;
mod rng;
pub mod semantics;
pub mod state;

pub use state::Chip8;
pub use state::VmError;
pub use state::VmState;


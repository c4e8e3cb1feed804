//! A CHIP-8 virtual machine: instruction decoding, the execution engine with
//! its timers and frame tick, the key pad and the 64x32 frame buffer.
//!
//! Every function states its behaviour over the mathematical model in
//! [`machine`], and the statements are proved.

pub mod cpu;
pub mod display;
pub mod keyboard;
pub mod laws;
pub mod machine;
pub mod opcode;

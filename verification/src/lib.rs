//! Host-side core for a BatPU-2 virtual machine: paces the emulated clock,
//! rasterises the 1-bit screen and converts programs between bytes,
//! instructions and mnemonic text.

pub mod codec;
pub mod controller;
pub mod instruction;
pub mod instruction_array;
pub mod machine_node;
pub mod screen;
pub mod text;

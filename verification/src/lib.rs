//! A verified interpreter for a small historical 8-bit virtual machine:
//! 16 general-purpose registers, a 4KB address space with a built-in
//! hexadecimal font, a 64x32 monochrome XOR-drawn framebuffer, a 16-key
//! input device, and two countdown timers.

pub mod cpu;
pub mod display;
pub mod font;
pub mod keyboard;
pub mod memory;

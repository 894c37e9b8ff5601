//! A CHIP-8 style virtual machine core: the instruction engine together with
//! the framebuffer and the key latch it acts on.

pub mod cpu;
pub mod display;
pub mod instruction;
pub mod keyboard;
pub mod machine;
pub mod sprite;

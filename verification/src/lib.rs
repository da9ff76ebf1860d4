//! Core of a Game Boy emulator: the CPU register file and accumulator
//! arithmetic, the memory map, the joypad register and the picture unit
//! that draws scanlines into an RGB frame buffer.
pub mod registers;
pub mod memory;
pub mod cpu;
pub mod gpu;
pub mod input;
pub mod mmu;

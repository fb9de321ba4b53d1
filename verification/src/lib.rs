//! A Game Boy emulator core: registers, bus, timer, CPU instruction
//! handlers, PPU, APU and cartridge mappers, with their behaviour stated
//! in contracts.

pub mod bits;
pub mod registers;
pub mod instructions;
pub mod apu;
pub mod text;
pub mod cartridge;
pub mod bus;
pub mod bus_state;
pub mod timer;
pub mod cpu;
pub mod objects;
pub mod ppu;
pub mod gb;
pub mod input;
pub mod args;
pub mod plugin;

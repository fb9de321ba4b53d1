use vstd::prelude::*;
use crate::bus::Joypad;

verus! {

/// The part of the bus that a save state keeps.
pub struct BusState {
    pub vram: Vec<u8>,
    pub wram: Vec<u8>,
    pub hram: Vec<u8>,
    pub oam: Vec<u8>,
    pub joyp: u8,
    pub iflag: u8,
    pub ie: u8,
    pub div: u16,
    pub tima: u8,
    pub tma: u8,
    pub tac: u8,
    pub lcdc: u8,
    pub stat: u8,
    pub scy: u8,
    pub scx: u8,
    pub ly: u8,
    pub lyc: u8,
    pub bgp: u8,
    pub opb0: u8,
    pub opb1: u8,
    pub wy: u8,
    pub wx: u8,
    pub dma_source: u8,
    pub joypad: Joypad,
}

impl BusState {
    /// The memories have the sizes of the bus's memories.
    pub open spec fn wf(&self) -> bool {
        &&& self.vram@.len() == 0x2000
        &&& self.wram@.len() == 0x2000
        &&& self.hram@.len() == 0x7F
        &&& self.oam@.len() == 0xA0
    }
}

} // verus!

//! Cartridges: the header and the memory bank controllers.

pub mod header;
pub mod mapper;
pub mod rom_data;
pub mod mbc1;
pub mod mbc2;
pub mod mbc3;
pub mod loader;

use vstd::prelude::*;
use crate::cartridge::header::CartHeader;
use crate::cartridge::mapper::Mapper;

verus! {

/// A loaded cartridge: its header and its memory controller.
pub struct Cartridge {
    pub header: CartHeader,
    pub mapper: Mapper,
}

} // verus!

use vstd::prelude::*;
use crate::text::push_char;

verus! {

/// The cartridge header at 0x0134-0x014D.
pub struct CartHeader {
    pub title: String,
    pub cartridge_type: u8,
    pub rom_size: u8,
    pub ram_size: u8,
    pub old_lic_code: u8,
    pub new_lic_code: [u8; 2],
    pub dest_code: u8,
    pub version: u8,
    pub checksum: u8,
}

/// The title is the bytes of 0x0134-0x0143 up to the first zero, each
/// byte taken as a character.
pub open spec fn is_title_of(title: Seq<char>, rom: Seq<u8>) -> bool {
    &&& title.len() <= 16
    &&& forall|j: int| 0 <= j < title.len() ==> rom[0x134 + j] != 0 && title[j] == (rom[0x134 + j] as char)
    &&& title.len() < 16 ==> rom[0x134 + title.len() as int] == 0
}

/// The external RAM size in bytes that a header RAM-size code denotes.
pub open spec fn spec_ram_size_bytes(code: u8) -> usize {
    if code == 1 {
        0x800
    } else if code == 2 {
        0x2000
    } else if code == 3 {
        0x8000
    } else if code == 4 {
        0x20000
    } else if code == 5 {
        0x10000
    } else {
        0
    }
}

impl CartHeader {
    /// Reads the header fields out of a ROM image.
    pub fn parse(rom: &[u8]) -> (r: Result<Self, String>)
        requires
            rom@.len() >= 0x14E,
        ensures
            r is Ok,
            r matches Ok(h) ==> {
                &&& is_title_of(h.title@, rom@)
                &&& h.cartridge_type == rom@[0x147]
                &&& h.rom_size == rom@[0x148]
                &&& h.ram_size == rom@[0x149]
                &&& h.old_lic_code == rom@[0x14B]
                &&& h.new_lic_code@ == seq![rom@[0x144], rom@[0x145]]
                &&& h.dest_code == rom@[0x14A]
                &&& h.version == rom@[0x14C]
                &&& h.checksum == rom@[0x14D]
            },
    {
        let mut title = String::new();
        let mut i: usize = 0;
        while i < 16 && rom[0x134 + i] != 0
            invariant
                rom@.len() >= 0x14E,
                i <= 16,
                title@.len() == i,
                forall|j: int| 0 <= j < i ==> #[trigger] rom@[0x134 + j] != 0,
                forall|j: int| 0 <= j < i ==> #[trigger] title@[j] == (rom@[0x134 + j] as char),
            decreases 16 - i,
        {
            let b = rom[0x134 + i];
            assert(b != 0);
            let c = b as char;
            assert(c == (rom@[0x134 + i as int] as char));
            let ghost prev = title@;
            push_char(&mut title, c);
            assert(title@[i as int] == c);
            assert forall|j: int| 0 <= j < i + 1 implies #[trigger] title@[j] == (rom@[0x134 + j] as char) by {
                if j < i {
                    assert(title@[j] == prev[j]);
                }
            }
            i += 1;
        }
        assert(i == 16 || rom@[0x134 + i as int] == 0);
        let new_lic_code = [rom[0x0144], rom[0x0145]];
        assert(new_lic_code@ =~= seq![rom@[0x144], rom@[0x145]]);
        Ok(Self {
            title,
            cartridge_type: rom[0x0147],
            rom_size: rom[0x0148],
            ram_size: rom[0x0149],
            old_lic_code: rom[0x014B],
            new_lic_code,
            dest_code: rom[0x014A],
            version: rom[0x014C],
            checksum: rom[0x014D],
        })
    }

    pub fn ram_size_bytes(&self) -> (n: usize)
        ensures
            n == spec_ram_size_bytes(self.ram_size),
    {
        match self.ram_size {
            1 => 0x800,
            2 => 0x2000,
            3 => 0x8000,
            4 => 0x20000,
            5 => 0x10000,
            _ => 0,
        }
    }
}

} // verus!

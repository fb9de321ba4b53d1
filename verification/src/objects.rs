use vstd::prelude::*;
use crate::instructions::Delta;

verus! {

/// The opcode table as read from its JSON description: each entry is an
/// opcode key such as `"0x3E"` and its description.
pub struct OpcodeFile {
    pub unprefixed: Vec<(String, RawOpcode)>,
    pub cbprefixed: Vec<(String, RawOpcode)>,
}

/// One opcode as described in the table file.
pub struct RawOpcode {
    pub mnemonic: String,
    pub bytes: u8,
    pub cycles: Vec<u8>,
    pub operands: Vec<RawOperand>,
    pub immediate: bool,
    pub flags: RawFlags,
}

/// One operand as described in the table file.
pub struct RawOperand {
    pub name: String,
    pub immediate: bool,
    pub increment: bool,
    pub decrement: bool,
}

impl RawOperand {
    /// The `HL` adjustment that the operand carries; an operand cannot both
    /// increment and decrement.
    pub fn delta(&self) -> (d: Delta)
        requires
            !(self.increment && self.decrement),
        ensures
            d == (if self.increment {
                Delta::Increment
            } else if self.decrement {
                Delta::Decrement
            } else {
                Delta::Unchanged
            }),
    {
        if self.increment {
            Delta::Increment
        } else if self.decrement {
            Delta::Decrement
        } else {
            Delta::Unchanged
        }
    }
}

/// How each flag is affected, as written in the table file (`"-"` means
/// unaffected).
pub struct RawFlags {
    pub z: String,
    pub n: String,
    pub h: String,
    pub c: String,
}

} // verus!

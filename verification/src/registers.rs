use vstd::prelude::*;
use crate::instructions::{Condition, Delta, Reg16, Reg8};

verus! {

/// The four flags held in the high nibble of `F`.
#[derive(Debug, Clone, Copy, PartialEq, Eq, Structural)]
pub enum FlagBits {
    Z,
    N,
    H,
    C,
}

impl FlagBits {
    /// The bit of `F` that holds the flag.
    pub open spec fn spec_mask(self) -> u8 {
        match self {
            FlagBits::Z => 0x80,
            FlagBits::N => 0x40,
            FlagBits::H => 0x20,
            FlagBits::C => 0x10,
        }
    }

    pub fn mask(self) -> (m: u8)
        ensures
            m == self.spec_mask(),
    {
        match self {
            FlagBits::Z => 0x80,
            FlagBits::N => 0x40,
            FlagBits::H => 0x20,
            FlagBits::C => 0x10,
        }
    }
}

/// The register file of the CPU.
#[derive(Debug, Clone, Copy, PartialEq, Eq, Structural)]
pub struct Registers {
    pub a: u8,
    pub b: u8,
    pub c: u8,
    pub d: u8,
    pub e: u8,
    pub f: u8,
    pub h: u8,
    pub l: u8,
    pub sp: u16,
    pub pc: u16,
}

/// The 16-bit value whose high byte is `hi` and low byte is `lo`.
pub open spec fn word(hi: u8, lo: u8) -> u16 {
    (hi as int * 256 + lo as int) as u16
}

/// The high byte of a 16-bit value.
pub open spec fn hi_byte(v: u16) -> u8 {
    (v as int / 256) as u8
}

/// The low byte of a 16-bit value.
pub open spec fn lo_byte(v: u16) -> u8 {
    (v as int % 256) as u8
}

/// Joining two bytes with a shift and an or is the arithmetic word.
pub proof fn lemma_join(hi: u8, lo: u8)
    ensures
        ((hi as u16) << 8u16) | (lo as u16) == word(hi, lo),
        word(hi, lo) as int == hi as int * 256 + lo as int,
{
    assert(((hi as u16) << 8u16) | (lo as u16) == (hi as u16) * 256 + (lo as u16)) by { crate::bits::lemma_u16_bits(); }
}

/// Splitting a word with a shift and a truncation gives its two bytes.
pub proof fn lemma_split(v: u16)
    ensures
        (v >> 8u16) as u8 == hi_byte(v),
        v as u8 == lo_byte(v),
        (v & 0xFF) as u8 == lo_byte(v),
        word(hi_byte(v), lo_byte(v)) == v,
{
    assert((v >> 8u16) as u8 == v / 256) by { crate::bits::lemma_u16_bits(); }
    assert(v as u8 == v % 256) by { crate::bits::lemma_u16_bits(); }
    assert((v & 0xFF) as u8 == v % 256) by { crate::bits::lemma_u16_bits(); }
}

impl Registers {
    /// `F` keeps its low nibble clear.
    pub open spec fn wf(&self) -> bool {
        self.f & 0x0F == 0
    }

    pub open spec fn spec_bc(&self) -> u16 {
        word(self.b, self.c)
    }

    pub open spec fn spec_de(&self) -> u16 {
        word(self.d, self.e)
    }

    pub open spec fn spec_hl(&self) -> u16 {
        word(self.h, self.l)
    }

    pub open spec fn spec_af(&self) -> u16 {
        word(self.a, self.f)
    }

    /// The register file after the boot ROM has run.
    pub open spec fn post_boot() -> Registers {
        Registers {
            a: 0x01,
            b: 0x00,
            c: 0x13,
            d: 0x00,
            e: 0xD8,
            f: 0xB0,
            h: 0x01,
            l: 0x4D,
            sp: 0xFFFE,
            pc: 0x0100,
        }
    }

    pub fn new() -> (r: Self)
        ensures
            r == Self::post_boot(),
            r.wf(),
    {
        let r = Registers {
            a: 0x01,
            b: 0x00,
            c: 0x13,
            d: 0x00,
            e: 0xD8,
            f: 0xB0,
            h: 0x01,
            l: 0x4D,
            sp: 0xFFFE,
            pc: 0x0100,
        };
        assert(0xB0u8 & 0x0F == 0) by (bit_vector);
        r
    }

    pub fn get_a(&self) -> (r: u8)
        ensures
            r == self.a,
    {
        self.a
    }

    pub fn set_a(&mut self, val: u8)
        ensures
            *final(self) == (Registers { a: val, ..*old(self) }),
    {
        self.a = val;
    }

    pub fn get_b(&self) -> (r: u8)
        ensures
            r == self.b,
    {
        self.b
    }

    pub fn set_b(&mut self, val: u8)
        ensures
            *final(self) == (Registers { b: val, ..*old(self) }),
    {
        self.b = val;
    }

    pub fn get_c(&self) -> (r: u8)
        ensures
            r == self.c,
    {
        self.c
    }

    pub fn set_c(&mut self, val: u8)
        ensures
            *final(self) == (Registers { c: val, ..*old(self) }),
    {
        self.c = val;
    }

    pub fn get_d(&self) -> (r: u8)
        ensures
            r == self.d,
    {
        self.d
    }

    pub fn set_d(&mut self, val: u8)
        ensures
            *final(self) == (Registers { d: val, ..*old(self) }),
    {
        self.d = val;
    }

    pub fn get_e(&self) -> (r: u8)
        ensures
            r == self.e,
    {
        self.e
    }

    pub fn set_e(&mut self, val: u8)
        ensures
            *final(self) == (Registers { e: val, ..*old(self) }),
    {
        self.e = val;
    }

    pub fn get_h(&self) -> (r: u8)
        ensures
            r == self.h,
    {
        self.h
    }

    pub fn set_h(&mut self, val: u8)
        ensures
            *final(self) == (Registers { h: val, ..*old(self) }),
    {
        self.h = val;
    }

    pub fn get_l(&self) -> (r: u8)
        ensures
            r == self.l,
    {
        self.l
    }

    pub fn set_l(&mut self, val: u8)
        ensures
            *final(self) == (Registers { l: val, ..*old(self) }),
    {
        self.l = val;
    }

    pub fn get_sp(&self) -> (r: u16)
        ensures
            r == self.sp,
    {
        self.sp
    }

    pub fn set_sp(&mut self, val: u16)
        ensures
            *final(self) == (Registers { sp: val, ..*old(self) }),
    {
        self.sp = val;
    }

    pub fn get_pc(&self) -> (r: u16)
        ensures
            r == self.pc,
    {
        self.pc
    }

    pub fn set_pc(&mut self, val: u16)
        ensures
            *final(self) == (Registers { pc: val, ..*old(self) }),
    {
        self.pc = val;
    }

    pub fn get_bc(&self) -> (r: u16)
        ensures
            r == self.spec_bc(),
    {
        proof { lemma_join(self.b, self.c); }
        (self.b as u16) << 8 | self.c as u16
    }

    pub fn set_bc(&mut self, val: u16)
        ensures
            *final(self) == (Registers { b: hi_byte(val), c: lo_byte(val), ..*old(self) }),
            final(self).spec_bc() == val,
    {
        proof { lemma_split(val); }
        self.b = (val >> 8) as u8;
        self.c = val as u8;
    }

    pub fn get_de(&self) -> (r: u16)
        ensures
            r == self.spec_de(),
    {
        proof { lemma_join(self.d, self.e); }
        (self.d as u16) << 8 | self.e as u16
    }

    pub fn set_de(&mut self, val: u16)
        ensures
            *final(self) == (Registers { d: hi_byte(val), e: lo_byte(val), ..*old(self) }),
            final(self).spec_de() == val,
    {
        proof { lemma_split(val); }
        self.d = (val >> 8) as u8;
        self.e = val as u8;
    }

    pub fn get_hl(&self) -> (r: u16)
        ensures
            r == self.spec_hl(),
    {
        proof { lemma_join(self.h, self.l); }
        (self.h as u16) << 8 | self.l as u16
    }

    pub fn set_hl(&mut self, val: u16)
        ensures
            *final(self) == (Registers { h: hi_byte(val), l: lo_byte(val), ..*old(self) }),
            final(self).spec_hl() == val,
    {
        proof { lemma_split(val); }
        self.h = (val >> 8) as u8;
        self.l = val as u8;
    }

    pub fn get_f(&self) -> (r: u8)
        ensures
            r == self.f,
    {
        self.f
    }

    /// Only the high nibble of `F` can be written.
    pub fn set_f(&mut self, val: u8)
        ensures
            *final(self) == (Registers { f: val & 0xF0, ..*old(self) }),
            final(self).wf(),
    {
        assert((val & 0xF0) & 0x0F == 0) by { crate::bits::lemma_u8_bits(); }
        self.f = val & 0xF0;
    }

    pub fn get_af(&self) -> (r: u16)
        ensures
            r == self.spec_af(),
    {
        proof { lemma_join(self.a, self.f); }
        (self.a as u16) << 8 | self.f as u16
    }

    pub fn set_af(&mut self, val: u16)
        ensures
            *final(self) == (Registers { a: hi_byte(val), f: lo_byte(val) & 0xF0, ..*old(self) }),
            final(self).wf(),
    {
        proof {
            lemma_split(val);
            assert(((val & 0x00F0) as u8) == ((val as u8) & 0xF0)) by (bit_vector);
            assert(((val as u8) & 0xF0) & 0x0F == 0) by (bit_vector);
        }
        self.a = (val >> 8) as u8;
        self.f = (val & 0x00F0) as u8;
    }

    /// Returns `PC` and then advances it by one.
    pub fn get_and_inc_pc(&mut self) -> (r: u16)
        requires
            old(self).pc < 0xFFFF,
        ensures
            r == old(self).pc,
            *final(self) == (Registers { pc: (old(self).pc + 1) as u16, ..*old(self) }),
    {
        let ret_pc = self.pc;
        self.pc += 1;
        ret_pc
    }

    /// Advances `PC` by one and returns the new value.
    pub fn inc_pc(&mut self) -> (r: u16)
        requires
            old(self).pc < 0xFFFF,
        ensures
            r == old(self).pc + 1,
            *final(self) == (Registers { pc: r, ..*old(self) }),
    {
        self.pc += 1;
        self.pc
    }

    /// Advances `PC` by `value`, wrapping around the address space.
    pub fn inc_pc_by(&mut self, value: u16)
        ensures
            *final(self) == (Registers { pc: ((old(self).pc + value) % 0x10000) as u16, ..*old(self) }),
    {
        self.pc = self.pc.wrapping_add(value);
    }

    /// The register selected by the low three bits of an opcode
    /// (`B C D E H L - A`; index 6 is a memory operand).
    pub open spec fn spec_by_index(&self, idx: u8) -> u8 {
        let i = idx % 8;
        if i == 0 {
            self.b
        } else if i == 1 {
            self.c
        } else if i == 2 {
            self.d
        } else if i == 3 {
            self.e
        } else if i == 4 {
            self.h
        } else if i == 5 {
            self.l
        } else {
            self.a
        }
    }

    /// The register file with the register at `idx` set to `val`.
    pub open spec fn spec_with_index(&self, idx: u8, val: u8) -> Registers {
        let i = idx % 8;
        if i == 0 {
            Registers { b: val, ..*self }
        } else if i == 1 {
            Registers { c: val, ..*self }
        } else if i == 2 {
            Registers { d: val, ..*self }
        } else if i == 3 {
            Registers { e: val, ..*self }
        } else if i == 4 {
            Registers { h: val, ..*self }
        } else if i == 5 {
            Registers { l: val, ..*self }
        } else {
            Registers { a: val, ..*self }
        }
    }

    pub fn get_by_index(&self, idx: u8) -> (r: u8)
        requires
            idx % 8 != 6,
        ensures
            r == self.spec_by_index(idx),
    {
        assert(idx & 0x07 == idx % 8) by { crate::bits::lemma_u8_bits(); }
        match idx & 0x07 {
            0 => self.get_b(),
            1 => self.get_c(),
            2 => self.get_d(),
            3 => self.get_e(),
            4 => self.get_h(),
            5 => self.get_l(),
            _ => self.get_a(),
        }
    }

    pub fn set_by_index(&mut self, idx: u8, val: u8)
        requires
            idx % 8 != 6,
        ensures
            *final(self) == old(self).spec_with_index(idx, val),
    {
        assert(idx & 0x07 == idx % 8) by { crate::bits::lemma_u8_bits(); }
        match idx & 0x07 {
            0 => self.set_b(val),
            1 => self.set_c(val),
            2 => self.set_d(val),
            3 => self.set_e(val),
            4 => self.set_h(val),
            5 => self.set_l(val),
            _ => self.set_a(val),
        }
    }

    pub open spec fn spec_get8(&self, reg: Reg8) -> u8 {
        match reg {
            Reg8::A => self.a,
            Reg8::B => self.b,
            Reg8::C => self.c,
            Reg8::D => self.d,
            Reg8::E => self.e,
            Reg8::F => self.f,
            Reg8::H => self.h,
            Reg8::L => self.l,
        }
    }

    /// The register file with `reg` set to `val` (`F` keeps its high nibble only).
    pub open spec fn spec_set8(&self, reg: Reg8, val: u8) -> Registers {
        match reg {
            Reg8::A => Registers { a: val, ..*self },
            Reg8::B => Registers { b: val, ..*self },
            Reg8::C => Registers { c: val, ..*self },
            Reg8::D => Registers { d: val, ..*self },
            Reg8::E => Registers { e: val, ..*self },
            Reg8::F => Registers { f: val & 0xF0, ..*self },
            Reg8::H => Registers { h: val, ..*self },
            Reg8::L => Registers { l: val, ..*self },
        }
    }

    pub fn get8(&self, reg: Reg8) -> (r: u8)
        ensures
            r == self.spec_get8(reg),
    {
        match reg {
            Reg8::A => self.a,
            Reg8::B => self.b,
            Reg8::C => self.c,
            Reg8::D => self.d,
            Reg8::E => self.e,
            Reg8::F => self.f,
            Reg8::H => self.h,
            Reg8::L => self.l,
        }
    }

    pub fn set8(&mut self, reg: Reg8, val: u8)
        ensures
            *final(self) == old(self).spec_set8(reg, val),
            old(self).wf() ==> final(self).wf(),
    {
        assert((val & 0xF0) & 0x0F == 0) by { crate::bits::lemma_u8_bits(); }
        match reg {
            Reg8::A => self.a = val,
            Reg8::B => self.b = val,
            Reg8::C => self.c = val,
            Reg8::D => self.d = val,
            Reg8::E => self.e = val,
            Reg8::F => self.f = val & 0xF0,
            Reg8::H => self.h = val,
            Reg8::L => self.l = val,
        }
    }

    /// The value of a 16-bit register as read (before any `HL` adjustment).
    pub open spec fn spec_get16(&self, reg: Reg16) -> u16 {
        match reg {
            Reg16::BC => self.spec_bc(),
            Reg16::DE => self.spec_de(),
            Reg16::HL(_) => self.spec_hl(),
            Reg16::SP => self.sp,
            Reg16::AF => self.spec_af(),
        }
    }

    /// The register file with a 16-bit register set to `val`.
    pub open spec fn spec_set16(&self, reg: Reg16, val: u16) -> Registers {
        match reg {
            Reg16::BC => Registers { b: hi_byte(val), c: lo_byte(val), ..*self },
            Reg16::DE => Registers { d: hi_byte(val), e: lo_byte(val), ..*self },
            Reg16::HL(_) => Registers { h: hi_byte(val), l: lo_byte(val), ..*self },
            Reg16::SP => Registers { sp: val, ..*self },
            Reg16::AF => Registers { a: hi_byte(val), f: lo_byte(val) & 0xF0, ..*self },
        }
    }

    /// The register file after reading `reg`: `[HL+]` and `[HL-]` step `HL`.
    pub open spec fn spec_after_get16(&self, reg: Reg16) -> Registers {
        match reg {
            Reg16::HL(delta) => match delta {
                Delta::Increment => self.spec_set16(reg, ((self.spec_hl() + 1) % 0x10000) as u16),
                Delta::Decrement => self.spec_set16(reg, ((self.spec_hl() + 0xFFFF) % 0x10000) as u16),
                Delta::Unchanged => *self,
            },
            _ => *self,
        }
    }

    pub fn get16(&mut self, reg: Reg16) -> (r: u16)
        ensures
            r == old(self).spec_get16(reg),
            *final(self) == old(self).spec_after_get16(reg),
    {
        match reg {
            Reg16::BC => self.get_bc(),
            Reg16::DE => self.get_de(),
            Reg16::HL(delta) => {
                match delta {
                    Delta::Unchanged => self.get_hl(),
                    Delta::Increment => {
                        let old = self.get_hl();
                        self.set_hl(old.wrapping_add(1));
                        old
                    },
                    Delta::Decrement => {
                        let old = self.get_hl();
                        self.set_hl(old.wrapping_sub(1));
                        old
                    },
                }
            },
            Reg16::SP => self.get_sp(),
            Reg16::AF => self.get_af(),
        }
    }

    pub fn set16(&mut self, reg: Reg16, val: u16)
        ensures
            *final(self) == old(self).spec_set16(reg, val),
            final(self).spec_get16(reg) == (match reg {
                Reg16::AF => word(hi_byte(val), lo_byte(val) & 0xF0),
                _ => val,
            }),
    {
        proof { lemma_split(val); }
        match reg {
            Reg16::BC => self.set_bc(val),
            Reg16::DE => self.set_de(val),
            Reg16::HL(_) => self.set_hl(val),
            Reg16::SP => self.set_sp(val),
            Reg16::AF => self.set_af(val),
        }
    }

    /// The register pair selected by bits 4-5 of an opcode (`BC DE HL SP`).
    pub open spec fn spec_by_index_u16(&self, idx: u8) -> u16 {
        let i = idx / 16;
        if i == 0 {
            self.spec_bc()
        } else if i == 1 {
            self.spec_de()
        } else if i == 2 {
            self.spec_hl()
        } else {
            self.sp
        }
    }

    pub open spec fn spec_with_index_u16(&self, idx: u8, val: u16) -> Registers {
        let i = idx / 16;
        if i == 0 {
            Registers { b: hi_byte(val), c: lo_byte(val), ..*self }
        } else if i == 1 {
            Registers { d: hi_byte(val), e: lo_byte(val), ..*self }
        } else if i == 2 {
            Registers { h: hi_byte(val), l: lo_byte(val), ..*self }
        } else {
            Registers { sp: val, ..*self }
        }
    }

    pub fn get_by_index_u16(&self, idx: u8) -> (r: u16)
        requires
            idx < 0x40,
        ensures
            r == self.spec_by_index_u16(idx),
    {
        assert((idx & 0xF0) >> 4 == idx / 16) by { crate::bits::lemma_u8_bits(); }
        match (idx & 0xF0) >> 4 {
            0 => self.get_bc(),
            1 => self.get_de(),
            2 => self.get_hl(),
            _ => self.get_sp(),
        }
    }

    pub fn set_by_index_u16(&mut self, idx: u8, val: u16)
        requires
            idx < 0x40,
        ensures
            *final(self) == old(self).spec_with_index_u16(idx, val),
    {
        assert((idx & 0xF0) >> 4 == idx / 16) by { crate::bits::lemma_u8_bits(); }
        match (idx & 0xF0) >> 4 {
            0 => self.set_bc(val),
            1 => self.set_de(val),
            2 => self.set_hl(val),
            _ => self.set_sp(val),
        }
    }

    pub fn inc_sp(&mut self, val: u16)
        ensures
            *final(self) == (Registers { sp: ((old(self).sp + val) % 0x10000) as u16, ..*old(self) }),
    {
        self.sp = self.sp.wrapping_add(val);
    }

    pub fn dec_sp(&mut self, val: u16)
        ensures
            *final(self) == (Registers { sp: ((old(self).sp - val + 0x10000) % 0x10000) as u16, ..*old(self) }),
    {
        self.sp = self.sp.wrapping_sub(val);
    }

    /// The value of `F` with `flag` set to `cond`.
    pub open spec fn spec_flag_to(f: u8, flag: FlagBits, cond: bool) -> u8 {
        if cond {
            f | flag.spec_mask()
        } else {
            f & !flag.spec_mask()
        }
    }

    pub open spec fn spec_flag(&self, flag: FlagBits) -> bool {
        self.f & flag.spec_mask() != 0
    }

    pub fn set_flag_to(&mut self, flag: FlagBits, cond: bool)
        ensures
            *final(self) == (Registers { f: Self::spec_flag_to(old(self).f, flag, cond), ..*old(self) }),
            final(self).spec_flag(flag) == cond,
            forall|other: FlagBits| other != flag ==> final(self).spec_flag(other) == old(self).spec_flag(other),
            old(self).wf() ==> final(self).wf(),
    {
        let m = flag.mask();
        let f = self.f;
        proof {
            lemma_flag_keeps_low_nibble(f, flag, cond);
            lemma_flag_bits(f);
        }
        if cond {
            self.f = f | m;
        } else {
            self.f = f & !m;
        }
        proof {
            assert forall|other: FlagBits| other != flag implies
                self.spec_flag(other) == old(self).spec_flag(other) by {
                let o = other.spec_mask();
                assert((f | m) & o == (f | m) & o);
                assert((f & !m) & o == (f & !m) & o);
            }
        }
    }

    pub fn get_flag(&self, flag: FlagBits) -> (r: bool)
        ensures
            r == self.spec_flag(flag),
    {
        (self.f & flag.mask()) != 0
    }

    pub open spec fn spec_condition(&self, condition: Condition) -> bool {
        match condition {
            Condition::NZ => !self.spec_flag(FlagBits::Z),
            Condition::Z => self.spec_flag(FlagBits::Z),
            Condition::NC => !self.spec_flag(FlagBits::C),
            Condition::C => self.spec_flag(FlagBits::C),
        }
    }

    pub fn check_conditions(&self, condition: Condition) -> (r: bool)
        ensures
            r == self.spec_condition(condition),
    {
        match condition {
            Condition::NZ => !self.get_flag(FlagBits::Z),
            Condition::Z => self.get_flag(FlagBits::Z),
            Condition::NC => !self.get_flag(FlagBits::C),
            Condition::C => self.get_flag(FlagBits::C),
        }
    }
}

/// Setting or clearing a flag bit keeps the low nibble of F clear.
proof fn lemma_flag_keeps_low_nibble(f: u8, flag: FlagBits, cond: bool)
    ensures
        f & 0x0F == 0 ==> Registers::spec_flag_to(f, flag, cond) & 0x0F == 0,
{
    assert(f & 0x0F == 0 ==> (f | 0x80) & 0x0F == 0 && (f | 0x40) & 0x0F == 0
        && (f | 0x20) & 0x0F == 0 && (f | 0x10) & 0x0F == 0
        && (f & !0x80u8) & 0x0F == 0 && (f & !0x40u8) & 0x0F == 0
        && (f & !0x20u8) & 0x0F == 0 && (f & !0x10u8) & 0x0F == 0) by (bit_vector);
}

/// F keeps its low nibble clear: it is clear after boot, and every change
/// that the register file's methods make keeps it clear (an 8-bit write,
/// a 16-bit write, the `HL` step of `[HL+]`/`[HL-]`, the indexed writes,
/// a flag change, and writes of F or AF).
pub proof fn lemma_f_low_nibble(r: Registers, reg: Reg8, reg16: Reg16, v8: u8, v16: u16, idx: u8, flag: FlagBits, cond: bool)
    requires
        r.wf(),
    ensures
        Registers::post_boot().wf(),
        r.spec_set8(reg, v8).wf(),
        r.spec_set16(reg16, v16).wf(),
        r.spec_after_get16(reg16).wf(),
        r.spec_with_index(idx, v8).wf(),
        r.spec_with_index_u16(idx, v16).wf(),
        (Registers { f: Registers::spec_flag_to(r.f, flag, cond), ..r }).wf(),
        (Registers { f: v8 & 0xF0, ..r }).wf(),
        (Registers { a: hi_byte(v16), f: lo_byte(v16) & 0xF0, ..r }).wf(),
{
    crate::bits::lemma_u8_bits();
    lemma_flag_keeps_low_nibble(r.f, flag, cond);
    let lo = lo_byte(v16);
    assert((lo & 0xF0) & 0x0F == 0);
    assert((v8 & 0xF0) & 0x0F == 0);
    assert(0xB0u8 & 0x0F == 0xB0u8 % 16);
}

/// One change that a method of the register file makes: an 8-bit write
/// (`set8` and the single-register setters), a 16-bit write (`set16` and
/// the pair setters), the step of `HL` that `get16` makes, the indexed
/// writes, a flag change, a write of `F` or `AF`, and the writes of `SP` and
/// `PC` (`set_sp`, `set_pc`, `inc_pc`, `inc_pc_by`, `get_and_inc_pc`).
pub enum RegisterChange {
    Set8(Reg8, u8),
    Set16(Reg16, u16),
    Get16(Reg16),
    WithIndex(u8, u8),
    WithIndexU16(u8, u16),
    Flag(FlagBits, bool),
    SetF(u8),
    SetAf(u16),
    Sp(u16),
    Pc(u16),
}

/// The register file after one change.
pub open spec fn after_change(r: Registers, c: RegisterChange) -> Registers {
    match c {
        RegisterChange::Set8(reg, v) => r.spec_set8(reg, v),
        RegisterChange::Set16(reg, v) => r.spec_set16(reg, v),
        RegisterChange::Get16(reg) => r.spec_after_get16(reg),
        RegisterChange::WithIndex(idx, v) => r.spec_with_index(idx, v),
        RegisterChange::WithIndexU16(idx, v) => r.spec_with_index_u16(idx, v),
        RegisterChange::Flag(flag, cond) => Registers { f: Registers::spec_flag_to(r.f, flag, cond), ..r },
        RegisterChange::SetF(v) => Registers { f: v & 0xF0, ..r },
        RegisterChange::SetAf(v) => Registers { a: hi_byte(v), f: lo_byte(v) & 0xF0, ..r },
        RegisterChange::Sp(v) => Registers { sp: v, ..r },
        RegisterChange::Pc(v) => Registers { pc: v, ..r },
    }
}

/// The register file after a sequence of changes, in order.
pub open spec fn after_changes(r: Registers, cs: Seq<RegisterChange>) -> Registers
    decreases cs.len(),
{
    if cs.len() == 0 {
        r
    } else {
        after_change(after_changes(r, cs.drop_last()), cs.last())
    }
}

/// Whatever sequence of changes the register file's methods make after
/// boot, `F` reads with its low nibble clear.
pub proof fn lemma_f_low_nibble_always(cs: Seq<RegisterChange>)
    ensures
        after_changes(Registers::post_boot(), cs).f & 0x0F == 0,
    decreases cs.len(),
{
    if cs.len() == 0 {
        crate::bits::lemma_u8_bits();
        assert(0xB0u8 & 0x0F == 0xB0u8 % 16);
    } else {
        lemma_f_low_nibble_always(cs.drop_last());
        let r = after_changes(Registers::post_boot(), cs.drop_last());
        match cs.last() {
            RegisterChange::Set8(reg, v) => lemma_f_low_nibble(r, reg, Reg16::BC, v, 0, 0, FlagBits::Z, false),
            RegisterChange::Set16(reg, v) => lemma_f_low_nibble(r, Reg8::A, reg, 0, v, 0, FlagBits::Z, false),
            RegisterChange::Get16(reg) => lemma_f_low_nibble(r, Reg8::A, reg, 0, 0, 0, FlagBits::Z, false),
            RegisterChange::WithIndex(idx, v) => lemma_f_low_nibble(r, Reg8::A, Reg16::BC, v, 0, idx, FlagBits::Z, false),
            RegisterChange::WithIndexU16(idx, v) => lemma_f_low_nibble(r, Reg8::A, Reg16::BC, 0, v, idx, FlagBits::Z, false),
            RegisterChange::Flag(flag, cond) => lemma_f_low_nibble(r, Reg8::A, Reg16::BC, 0, 0, 0, flag, cond),
            RegisterChange::SetF(v) => lemma_f_low_nibble(r, Reg8::A, Reg16::BC, v, 0, 0, FlagBits::Z, false),
            RegisterChange::SetAf(v) => lemma_f_low_nibble(r, Reg8::A, Reg16::BC, 0, v, 0, FlagBits::Z, false),
            RegisterChange::Sp(_) => {},
            RegisterChange::Pc(_) => {},
        }
    }
}

/// Setting a flag to `cond` makes it read `cond`, and the other flags read
/// as before.
pub proof fn lemma_flag_to(r: Registers, flag: FlagBits, cond: bool)
    ensures
        (Registers { f: Registers::spec_flag_to(r.f, flag, cond), ..r }).spec_flag(flag) == cond,
        forall|other: FlagBits| other != flag ==>
            (Registers { f: Registers::spec_flag_to(r.f, flag, cond), ..r }).spec_flag(other) == r.spec_flag(other),
{
    let f = r.f;
    let m = flag.spec_mask();
    lemma_flag_bits(f);
    assert forall|other: FlagBits| other != flag implies
        (Registers { f: Registers::spec_flag_to(r.f, flag, cond), ..r }).spec_flag(other) == r.spec_flag(other) by {
        let o = other.spec_mask();
        assert((f | m) & o == (f | m) & o);
        assert((f & !m) & o == (f & !m) & o);
    }
}

/// Setting or clearing one flag bit leaves the other flag bits as they were.
proof fn lemma_flag_bits(f: u8)
    ensures
        (f | 0x80) & 0x80 != 0, (f | 0x40) & 0x40 != 0, (f | 0x20) & 0x20 != 0, (f | 0x10) & 0x10 != 0,
        (f & !0x80u8) & 0x80 == 0, (f & !0x40u8) & 0x40 == 0,
        (f & !0x20u8) & 0x20 == 0, (f & !0x10u8) & 0x10 == 0,
        forall|m: u8, o: u8|
            #![trigger (f | m) & o]
            #![trigger (f & !m) & o]
            (m == 0x80 || m == 0x40 || m == 0x20 || m == 0x10)
            && (o == 0x80 || o == 0x40 || o == 0x20 || o == 0x10) && m != o
            ==> (((f | m) & o != 0) == (f & o != 0) && ((f & !m) & o != 0) == (f & o != 0)),
{
    assert((f | 0x80) & 0x80 != 0 && (f | 0x40) & 0x40 != 0 && (f | 0x20) & 0x20 != 0 && (f | 0x10) & 0x10 != 0) by (bit_vector);
    assert((f & !0x80u8) & 0x80 == 0 && (f & !0x40u8) & 0x40 == 0
        && (f & !0x20u8) & 0x20 == 0 && (f & !0x10u8) & 0x10 == 0) by (bit_vector);
    assert forall|m: u8, o: u8|
        (m == 0x80 || m == 0x40 || m == 0x20 || m == 0x10)
        && (o == 0x80 || o == 0x40 || o == 0x20 || o == 0x10) && m != o
        implies (((f | m) & o != 0) == (f & o != 0) && ((f & !m) & o != 0) == (f & o != 0)) by {
        assert((m == 0x80 || m == 0x40 || m == 0x20 || m == 0x10)
            && (o == 0x80 || o == 0x40 || o == 0x20 || o == 0x10) && m != o
            ==> (((f | m) & o != 0) == (f & o != 0) && ((f & !m) & o != 0) == (f & o != 0))) by (bit_vector);
    }
}

} // verus!

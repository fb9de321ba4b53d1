use vstd::prelude::*;
use crate::registers::{FlagBits, Registers, lemma_flag_to};
use crate::cpu::Cpu;
use crate::bus::{Bus, BusView};
use crate::objects::{OpcodeFile, RawFlags, RawOpcode, RawOperand};
use crate::text::{str_is, opcode_key, parse_opcode_key};

verus! {

/// An 8-bit register name.
#[derive(Debug, Clone, Copy, PartialEq, Eq, Structural)]
pub enum Reg8 {
    A,
    B,
    C,
    D,
    E,
    F,
    H,
    L,
}

/// Post-access adjustment of `HL` in `[HL+]` / `[HL-]` operands.
#[derive(Debug, Clone, Copy, PartialEq, Eq, Structural)]
pub enum Delta {
    Unchanged,
    Increment,
    Decrement,
}

/// A 16-bit register name.
#[derive(Debug, Clone, Copy, PartialEq, Eq, Structural)]
pub enum Reg16 {
    BC,
    DE,
    HL(Delta),
    SP,
    AF,
}

/// A branch condition on the flag register.
#[derive(Debug, Clone, Copy, PartialEq, Eq, Structural)]
pub enum Condition {
    Z,
    NZ,
    C,
    NC,
}

} // verus!

verus! {

/// What a single operand of the opcode table denotes.
#[derive(Debug, Clone, Copy, PartialEq, Eq, Structural)]
pub enum OperandKind {
    Empty,
    Reg8(Reg8),
    Reg16(Reg16),
    Imm8,
    Imm16,
    Mem(MemTarget),
    Cond(Condition),
    Fixed,
}

/// A memory operand.
#[derive(Debug, Clone, Copy, PartialEq, Eq, Structural)]
pub enum MemTarget {
    Reg16(Reg16),
    Imm16,
    HighImm8,
    HighC,
}

/// The operand shape of an instruction.
#[derive(Debug, Clone, Copy, PartialEq, Eq, Structural)]
pub enum Operands {
    Empty,
    Reg(Reg8),
    RegReg(Reg8, Reg8),
    RegImm8(Reg8),
    Reg16(Reg16),
    Reg16Reg16(Reg16, Reg16),
    Reg16Imm16(Reg16),
    MemReg(MemTarget, Reg8),
    RegMem(Reg8, MemTarget),
    Cond(Condition),
    CondImm16(Condition),
    Imm16,
}

/// The routine that executes an instruction.
#[derive(Debug, Clone, Copy, PartialEq, Eq, Structural)]
pub enum Handler {
    Unimplemented,
    Nop,
    LdRR,
    LdRN8,
    LdRrN16,
    LdDerefRrA,
    LdhRMem,
    LdhMemR,
    IncR,
    DecR,
    IncRr,
    DecRr,
    AddRR,
    AddRrRr,
    SubRR,
    JpA16,
    JrE8,
    JrCcE8,
}

/// One entry of the opcode table.
#[derive(Debug)]
pub struct Instruction {
    pub opcode: u8,
    pub name: String,
    pub cycles: u8,
    pub size: u8,
    pub flags: Vec<FlagBits>,
    pub execute: Handler,
    pub operands: Operands,
}

} // verus!

verus! {

/// `PC` advanced by `n`, wrapping around the address space.
pub open spec fn pc_plus(pc: u16, n: int) -> u16 {
    ((pc + n) % 0x10000) as u16
}

/// The signed displacement that a byte encodes.
pub open spec fn signed_byte(b: u8) -> int {
    if b < 128 { b as int } else { b as int - 256 }
}

/// `F` after setting the listed flags in order.
pub open spec fn flags4(f: u8, z: bool, n: bool, h: bool, c: bool) -> u8 {
    Registers::spec_flag_to(
        Registers::spec_flag_to(
            Registers::spec_flag_to(Registers::spec_flag_to(f, FlagBits::Z, z), FlagBits::N, n),
            FlagBits::H,
            h,
        ),
        FlagBits::C,
        c,
    )
}

pub open spec fn flags3(f: u8, z: bool, n: bool, h: bool) -> u8 {
    Registers::spec_flag_to(
        Registers::spec_flag_to(Registers::spec_flag_to(f, FlagBits::Z, z), FlagBits::N, n),
        FlagBits::H,
        h,
    )
}

/// `F` after setting N, H and C (ADD on register pairs leaves Z alone).
pub open spec fn flags_nhc(f: u8, n: bool, h: bool, c: bool) -> u8 {
    Registers::spec_flag_to(
        Registers::spec_flag_to(Registers::spec_flag_to(f, FlagBits::N, n), FlagBits::H, h),
        FlagBits::C,
        c,
    )
}

/// The address of an `LDH` memory operand: 0xFF00 plus `C` or the immediate byte.
pub open spec fn high_addr(mem: MemTarget, cpu: Cpu, bus: BusView) -> u16 {
    let offset = match mem {
        MemTarget::HighC => cpu.registers.c,
        _ => bus.read((cpu.registers.pc + 1) as u16),
    };
    (0xFF00 + offset) as u16
}

/// Whether an `LDH` memory operand can be formed: its immediate byte, if
/// any, must be readable.
pub open spec fn high_mem_ok(mem: MemTarget, cpu: Cpu, bus: BusView) -> bool {
    match mem {
        MemTarget::HighC => true,
        MemTarget::HighImm8 => bus.readable((cpu.registers.pc + 1) as u16),
        _ => false,
    }
}

/// The condition that a conditional operand carries.
pub open spec fn operand_condition(ops: Operands) -> Option<Condition> {
    match ops {
        Operands::Cond(c) => Some(c),
        Operands::CondImm16(c) => Some(c),
        _ => None,
    }
}

/// Whether executing `instr` in this state is defined: the operands have
/// the shape that the handler expects, `PC` can be offset to the
/// immediate bytes, and every memory access is defined.
pub open spec fn exec_ok(instr: Instruction, cpu: Cpu, bus: BusView) -> bool {
    let regs = cpu.registers;
    match instr.execute {
        Handler::Unimplemented => false,
        Handler::Nop => true,
        Handler::LdRR => instr.operands is RegReg,
        Handler::LdRN8 => instr.operands is RegImm8 && regs.pc < 0xFFFF
            && bus.readable((regs.pc + 1) as u16),
        Handler::LdRrN16 => instr.operands is Reg16Imm16 && regs.pc < 0xFFFE
            && bus.readable((regs.pc + 1) as u16) && bus.readable((regs.pc + 2) as u16),
        Handler::LdDerefRrA => instr.opcode < 0x40
            && bus.writable(regs.spec_by_index_u16(instr.opcode), regs.a),
        Handler::LdhRMem => match instr.operands {
            Operands::RegMem(_, mem) => regs.pc < 0xFFFF && high_mem_ok(mem, cpu, bus)
                && bus.readable(high_addr(mem, cpu, bus)),
            _ => false,
        },
        Handler::LdhMemR => match instr.operands {
            Operands::MemReg(mem, src) => regs.pc < 0xFFFF && high_mem_ok(mem, cpu, bus)
                && bus.writable(high_addr(mem, cpu, bus), regs.spec_get8(src)),
            _ => false,
        },
        Handler::IncR => instr.operands is Reg,
        Handler::DecR => instr.operands is Reg,
        Handler::IncRr => instr.operands is Reg16,
        Handler::DecRr => instr.operands is Reg16,
        Handler::AddRR => instr.operands is RegReg,
        Handler::AddRrRr => instr.operands is Reg16Reg16,
        Handler::SubRR => instr.operands is RegReg,
        Handler::JpA16 => regs.pc < 0xFFFE && bus.readable((regs.pc + 1) as u16)
            && bus.readable((regs.pc + 2) as u16),
        Handler::JrE8 => regs.pc < 0xFFFF && bus.readable((regs.pc + 1) as u16),
        Handler::JrCcE8 => regs.pc < 0xFFFF && bus.readable((regs.pc + 1) as u16)
            && operand_condition(instr.operands) is Some,
    }
}

/// The CPU and bus after executing `instr`, and the cycle count that the
/// handler reports.
pub open spec fn exec_result(instr: Instruction, cpu: Cpu, bus: BusView) -> (Cpu, BusView, u8) {
    match instr.execute {
        Handler::LdRR => ld_r_r_result(instr, cpu, bus),
        Handler::LdRN8 => ld_r_n8_result(instr, cpu, bus),
        Handler::LdRrN16 => ld_rr_n16_result(instr, cpu, bus),
        Handler::LdDerefRrA => ld_deref_rr_a_result(instr, cpu, bus),
        Handler::LdhRMem => ldh_r_mem_result(instr, cpu, bus),
        Handler::LdhMemR => ldh_mem_r_result(instr, cpu, bus),
        Handler::IncR => inc_r_result(instr, cpu, bus),
        Handler::DecR => dec_r_result(instr, cpu, bus),
        Handler::IncRr => inc_rr_result(instr, cpu, bus),
        Handler::DecRr => dec_rr_result(instr, cpu, bus),
        Handler::AddRR => add_r_r_result(instr, cpu, bus),
        Handler::AddRrRr => add_rr_rr_result(instr, cpu, bus),
        Handler::SubRR => sub_r_r_result(instr, cpu, bus),
        Handler::JpA16 => jp_a16_result(instr, cpu, bus),
        Handler::JrE8 => jr_e8_result(instr, cpu, bus),
        Handler::JrCcE8 => jr_cc_e8_result(instr, cpu, bus),
        Handler::Nop => nop_result(instr, cpu, bus),
        Handler::Unimplemented => (cpu, bus, 0),
    }
}

pub open spec fn ld_r_r_result(instr: Instruction, cpu: Cpu, bus: BusView) -> (Cpu, BusView, u8) {
    let regs = cpu.registers;
    let next_pc = pc_plus(regs.pc, instr.size as int);
    match instr.operands {
        Operands::RegReg(dst, src) => {
            let r = regs.spec_set8(dst, regs.spec_get8(src));
            (Cpu { registers: Registers { pc: next_pc, ..r }, ..cpu }, bus, instr.cycles)
        },
        _ => (cpu, bus, 0),
    }
}

pub open spec fn ld_r_n8_result(instr: Instruction, cpu: Cpu, bus: BusView) -> (Cpu, BusView, u8) {
    let regs = cpu.registers;
    let next_pc = pc_plus(regs.pc, instr.size as int);
    match instr.operands {
        Operands::RegImm8(dst) => {
            let r = regs.spec_set8(dst, bus.read((regs.pc + 1) as u16));
            (Cpu { registers: Registers { pc: next_pc, ..r }, ..cpu }, bus, instr.cycles)
        },
        _ => (cpu, bus, 0),
    }
}

pub open spec fn ld_rr_n16_result(instr: Instruction, cpu: Cpu, bus: BusView) -> (Cpu, BusView, u8) {
    let regs = cpu.registers;
    let next_pc = pc_plus(regs.pc, instr.size as int);
    match instr.operands {
        Operands::Reg16Imm16(dst) => {
            let v = (bus.read((regs.pc + 2) as u16) as int * 256 + bus.read((regs.pc + 1) as u16)) as u16;
            let r = regs.spec_set16(dst, v);
            (Cpu { registers: Registers { pc: next_pc, ..r }, ..cpu }, bus, instr.cycles)
        },
        _ => (cpu, bus, 0),
    }
}

pub open spec fn ld_deref_rr_a_result(instr: Instruction, cpu: Cpu, bus: BusView) -> (Cpu, BusView, u8) {
    let regs = cpu.registers;
    let next_pc = pc_plus(regs.pc, instr.size as int);
    (
        Cpu { registers: Registers { pc: next_pc, ..regs }, ..cpu },
        bus.write(regs.spec_by_index_u16(instr.opcode), regs.a),
        instr.cycles,
    )
}

pub open spec fn ldh_r_mem_result(instr: Instruction, cpu: Cpu, bus: BusView) -> (Cpu, BusView, u8) {
    let regs = cpu.registers;
    let next_pc = pc_plus(regs.pc, instr.size as int);
    match instr.operands {
        Operands::RegMem(dest, mem) => {
            let r = regs.spec_set8(dest, bus.read(high_addr(mem, cpu, bus)));
            (Cpu { registers: Registers { pc: next_pc, ..r }, ..cpu }, bus, instr.cycles)
        },
        _ => (cpu, bus, 0),
    }
}

pub open spec fn ldh_mem_r_result(instr: Instruction, cpu: Cpu, bus: BusView) -> (Cpu, BusView, u8) {
    let regs = cpu.registers;
    let next_pc = pc_plus(regs.pc, instr.size as int);
    match instr.operands {
        Operands::MemReg(mem, src) => (
            Cpu { registers: Registers { pc: next_pc, ..regs }, ..cpu },
            bus.write(high_addr(mem, cpu, bus), regs.spec_get8(src)),
            instr.cycles,
        ),
        _ => (cpu, bus, 0),
    }
}

pub open spec fn inc_r_result(instr: Instruction, cpu: Cpu, bus: BusView) -> (Cpu, BusView, u8) {
    let regs = cpu.registers;
    let next_pc = pc_plus(regs.pc, instr.size as int);
    match instr.operands {
        Operands::Reg(src) => {
            let old = regs.spec_get8(src);
            let new = ((old + 1) % 256) as u8;
            let r = regs.spec_set8(src, new);
            let f = flags3(r.f, new == 0, false, old % 16 == 15);
            (Cpu { registers: Registers { f: f, pc: next_pc, ..r }, ..cpu }, bus, instr.cycles)
        },
        _ => (cpu, bus, 0),
    }
}

pub open spec fn dec_r_result(instr: Instruction, cpu: Cpu, bus: BusView) -> (Cpu, BusView, u8) {
    let regs = cpu.registers;
    let next_pc = pc_plus(regs.pc, instr.size as int);
    match instr.operands {
        Operands::Reg(src) => {
            let old = regs.spec_get8(src);
            let new = ((old + 255) % 256) as u8;
            let r = regs.spec_set8(src, new);
            let f = flags3(r.f, new == 0, true, old % 16 == 0);
            (Cpu { registers: Registers { f: f, pc: next_pc, ..r }, ..cpu }, bus, instr.cycles)
        },
        _ => (cpu, bus, 0),
    }
}

pub open spec fn inc_rr_result(instr: Instruction, cpu: Cpu, bus: BusView) -> (Cpu, BusView, u8) {
    let regs = cpu.registers;
    let next_pc = pc_plus(regs.pc, instr.size as int);
    match instr.operands {
        Operands::Reg16(src) => {
            let old = regs.spec_get16(src);
            let new = ((old + 1) % 0x10000) as u16;
            let r = regs.spec_after_get16(src).spec_set16(src, new);
            let f = flags3(r.f, new == 0, false, old % 16 == 15);
            (Cpu { registers: Registers { f: f, pc: pc_plus(r.pc, instr.size as int), ..r }, ..cpu }, bus, instr.cycles)
        },
        _ => (cpu, bus, 0),
    }
}

pub open spec fn dec_rr_result(instr: Instruction, cpu: Cpu, bus: BusView) -> (Cpu, BusView, u8) {
    let regs = cpu.registers;
    let next_pc = pc_plus(regs.pc, instr.size as int);
    match instr.operands {
        Operands::Reg16(src) => {
            let old = regs.spec_get16(src);
            let new = ((old + 0xFFFF) % 0x10000) as u16;
            let r = regs.spec_after_get16(src).spec_set16(src, new);
            let f = flags3(r.f, new == 0, true, old % 16 == 0);
            (Cpu { registers: Registers { f: f, pc: pc_plus(r.pc, instr.size as int), ..r }, ..cpu }, bus, instr.cycles)
        },
        _ => (cpu, bus, 0),
    }
}

pub open spec fn add_r_r_result(instr: Instruction, cpu: Cpu, bus: BusView) -> (Cpu, BusView, u8) {
    let regs = cpu.registers;
    let next_pc = pc_plus(regs.pc, instr.size as int);
    match instr.operands {
        Operands::RegReg(dest, src) => {
            let a = regs.spec_get8(dest);
            let b = regs.spec_get8(src);
            let sum = a + b;
            let result = (sum % 256) as u8;
            let f = flags4(regs.f, result == 0, false, a % 16 + b % 16 > 15, sum > 255);
            let r = Registers { f: f, ..regs }.spec_set8(dest, result);
            (Cpu { registers: Registers { pc: next_pc, ..r }, ..cpu }, bus, instr.cycles)
        },
        _ => (cpu, bus, 0),
    }
}

pub open spec fn add_rr_rr_result(instr: Instruction, cpu: Cpu, bus: BusView) -> (Cpu, BusView, u8) {
    let regs = cpu.registers;
    let next_pc = pc_plus(regs.pc, instr.size as int);
    match instr.operands {
        Operands::Reg16Reg16(dest, src) => {
            let a = regs.spec_get16(dest);
            let r1 = regs.spec_after_get16(dest);
            let b = r1.spec_get16(src);
            let r2 = r1.spec_after_get16(src);
            let sum = a + b;
            let result = (sum % 0x10000) as u16;
            let f = flags_nhc(r2.f, false, a % 4096 + b % 4096 > 4095, sum > 0xFFFF);
            let r = Registers { f: f, ..r2 }.spec_set16(dest, result);
            (Cpu { registers: Registers { pc: pc_plus(r.pc, instr.size as int), ..r }, ..cpu }, bus, instr.cycles)
        },
        _ => (cpu, bus, 0),
    }
}

pub open spec fn sub_r_r_result(instr: Instruction, cpu: Cpu, bus: BusView) -> (Cpu, BusView, u8) {
    let regs = cpu.registers;
    let next_pc = pc_plus(regs.pc, instr.size as int);
    match instr.operands {
        Operands::RegReg(dest, src) => {
            let a = regs.spec_get8(dest);
            let b = regs.spec_get8(src);
            let result = ((a - b + 256) % 256) as u8;
            let f = flags4(regs.f, result == 0, true, a % 16 < b % 16, a < b);
            let r = Registers { f: f, ..regs }.spec_set8(dest, result);
            (Cpu { registers: Registers { pc: next_pc, ..r }, ..cpu }, bus, instr.cycles)
        },
        _ => (cpu, bus, 0),
    }
}

pub open spec fn jp_a16_result(instr: Instruction, cpu: Cpu, bus: BusView) -> (Cpu, BusView, u8) {
    let regs = cpu.registers;
    let next_pc = pc_plus(regs.pc, instr.size as int);
    {
        let dest = (bus.read((regs.pc + 2) as u16) as int * 256 + bus.read((regs.pc + 1) as u16)) as u16;
        (Cpu { registers: Registers { pc: dest, ..regs }, ..cpu }, bus, instr.size)
    }
}

pub open spec fn jr_e8_result(instr: Instruction, cpu: Cpu, bus: BusView) -> (Cpu, BusView, u8) {
    let regs = cpu.registers;
    let next_pc = pc_plus(regs.pc, instr.size as int);
    {
        let dest = pc_plus(next_pc, signed_byte(bus.read((regs.pc + 1) as u16)));
        (Cpu { registers: Registers { pc: dest, ..regs }, ..cpu }, bus, instr.size)
    }
}

pub open spec fn jr_cc_e8_result(instr: Instruction, cpu: Cpu, bus: BusView) -> (Cpu, BusView, u8) {
    let regs = cpu.registers;
    let next_pc = pc_plus(regs.pc, instr.size as int);
    {
        let dest = pc_plus(next_pc, signed_byte(bus.read((regs.pc + 1) as u16)));
        let taken = match operand_condition(instr.operands) {
            Some(c) => regs.spec_condition(c),
            None => false,
        };
        if taken {
            (Cpu { registers: Registers { pc: dest, ..regs }, ..cpu }, bus, 12)
        } else {
            (Cpu { registers: Registers { pc: next_pc, ..regs }, ..cpu }, bus, 8)
        }
    }
}

pub open spec fn nop_result(instr: Instruction, cpu: Cpu, bus: BusView) -> (Cpu, BusView, u8) {
    let regs = cpu.registers;
    let next_pc = pc_plus(regs.pc, instr.size as int);
    (Cpu { registers: Registers { pc: next_pc, ..regs }, ..cpu }, bus, 4)
}

} // verus!

verus! {

/// `(b as i8) as i16` is the signed value of the byte.
proof fn lemma_signed_byte(b: u8)
    ensures
        (b as i8) as i16 == signed_byte(b),
{
    assert(b < 128 ==> (b as i8) as i16 == b as i16) by (bit_vector);
    assert(b >= 128 ==> (b as i8) as i16 + 256 == b as i16) by (bit_vector);
}

/// `NOP`: only advances `PC`.
pub fn nop(instr: &Instruction, cpu: &mut Cpu, bus: &mut Bus) -> (r: u8)
    requires
        instr.execute == Handler::Nop,
    ensures
        (*final(cpu), final(bus)@, r) == nop_result(*instr, *old(cpu), old(bus)@),
{
    cpu.registers.inc_pc_by(instr.size as u16);
    4
}

/// `LD r, r'`.
pub fn ld_r_r(instr: &Instruction, cpu: &mut Cpu, bus: &mut Bus) -> (r: u8)
    requires
        instr.execute == Handler::LdRR,
        exec_ok(*instr, *old(cpu), old(bus)@),
    ensures
        (*final(cpu), final(bus)@, r) == ld_r_r_result(*instr, *old(cpu), old(bus)@),
{
    let (dst, src) = match instr.operands {
        Operands::RegReg(dst, src) => (dst, src),
        _ => {
            proof { assert(false); }
            return 0;
        },
    };
    let val = cpu.registers.get8(src);
    cpu.registers.set8(dst, val);
    cpu.registers.inc_pc_by(instr.size as u16);
    instr.cycles as u8
}

/// `LD r, n8`: loads the byte after the opcode.
pub fn ld_r_n8(instr: &Instruction, cpu: &mut Cpu, bus: &mut Bus) -> (r: u8)
    requires
        instr.execute == Handler::LdRN8,
        exec_ok(*instr, *old(cpu), old(bus)@),
        old(bus)@.wf(),
    ensures
        (*final(cpu), final(bus)@, r) == ld_r_n8_result(*instr, *old(cpu), old(bus)@),
{
    let dst = match instr.operands {
        Operands::RegImm8(dst) => dst,
        _ => {
            proof { assert(false); }
            return 0;
        },
    };
    let pc = cpu.registers.get_pc() + 1;
    let val = bus.read(pc);
    cpu.registers.set8(dst, val);
    cpu.registers.inc_pc_by(instr.size as u16);
    instr.cycles as u8
}

/// `LD rr, n16`: loads the little-endian word after the opcode.
pub fn ld_rr_n16(instr: &Instruction, cpu: &mut Cpu, bus: &mut Bus) -> (r: u8)
    requires
        instr.execute == Handler::LdRrN16,
        exec_ok(*instr, *old(cpu), old(bus)@),
        old(bus)@.wf(),
    ensures
        (*final(cpu), final(bus)@, r) == ld_rr_n16_result(*instr, *old(cpu), old(bus)@),
{
    let dst = match instr.operands {
        Operands::Reg16Imm16(dst) => dst,
        _ => {
            proof { assert(false); }
            return 0;
        },
    };
    let pc = cpu.registers.get_pc() + 1;
    let val = bus.read_u16(pc);
    cpu.registers.set16(dst, val);
    cpu.registers.inc_pc_by(instr.size as u16);
    instr.cycles as u8
}

/// `LD [rr], A`: the pair is selected by bits 4-5 of the opcode.
pub fn ld_deref_rr_a(instr: &Instruction, cpu: &mut Cpu, bus: &mut Bus) -> (r: u8)
    requires
        instr.execute == Handler::LdDerefRrA,
        exec_ok(*instr, *old(cpu), old(bus)@),
        old(bus)@.wf(),
    ensures
        (*final(cpu), final(bus)@, r) == ld_deref_rr_a_result(*instr, *old(cpu), old(bus)@),
        final(bus)@.wf(),
{
    let val = cpu.registers.get_a();
    let addr = cpu.registers.get_by_index_u16(instr.opcode);
    bus.write(addr, val);
    cpu.registers.inc_pc_by(instr.size as u16);
    instr.cycles as u8
}

/// `LDH r, [0xFF00 + C]` and `LDH r, [0xFF00 + n8]`.
pub fn ldh_r_mem(instr: &Instruction, cpu: &mut Cpu, bus: &mut Bus) -> (r: u8)
    requires
        instr.execute == Handler::LdhRMem,
        exec_ok(*instr, *old(cpu), old(bus)@),
        old(bus)@.wf(),
    ensures
        (*final(cpu), final(bus)@, r) == ldh_r_mem_result(*instr, *old(cpu), old(bus)@),
{
    let (dest, mem) = match instr.operands {
        Operands::RegMem(dest, mem) => (dest, mem),
        _ => {
            proof { assert(false); }
            return 0;
        },
    };
    let pc = cpu.registers.get_pc() + 1;
    let offset = match mem {
        MemTarget::HighC => cpu.registers.get_c() as u16,
        MemTarget::HighImm8 => bus.read(pc) as u16,
        _ => {
            proof { assert(false); }
            return 0;
        },
    };
    let addr = 0xFF00 + offset;
    cpu.registers.set8(dest, bus.read(addr));
    cpu.registers.inc_pc_by(instr.size as u16);
    instr.cycles as u8
}

/// `LDH [0xFF00 + C], r` and `LDH [0xFF00 + n8], r`.
pub fn ldh_mem_r(instr: &Instruction, cpu: &mut Cpu, bus: &mut Bus) -> (r: u8)
    requires
        instr.execute == Handler::LdhMemR,
        exec_ok(*instr, *old(cpu), old(bus)@),
        old(bus)@.wf(),
    ensures
        (*final(cpu), final(bus)@, r) == ldh_mem_r_result(*instr, *old(cpu), old(bus)@),
        final(bus)@.wf(),
{
    let (mem, src) = match instr.operands {
        Operands::MemReg(mem, src) => (mem, src),
        _ => {
            proof { assert(false); }
            return 0;
        },
    };
    let pc = cpu.registers.get_pc() + 1;
    let val = cpu.registers.get8(src);
    let offset = match mem {
        MemTarget::HighC => cpu.registers.get_c() as u16,
        MemTarget::HighImm8 => bus.read(pc) as u16,
        _ => {
            proof { assert(false); }
            return 0;
        },
    };
    let addr = 0xFF00 + offset;
    bus.write(addr, val);
    cpu.registers.inc_pc_by(instr.size as u16);
    instr.cycles as u8
}

/// `INC r`: Z, N and H are set, C is kept.
pub fn inc_r(instr: &Instruction, cpu: &mut Cpu, bus: &mut Bus) -> (r: u8)
    requires
        instr.execute == Handler::IncR,
        exec_ok(*instr, *old(cpu), old(bus)@),
    ensures
        (*final(cpu), final(bus)@, r) == inc_r_result(*instr, *old(cpu), old(bus)@),
{
    let src = match instr.operands {
        Operands::Reg(src) => src,
        _ => {
            proof { assert(false); }
            return 0;
        },
    };
    let old = cpu.registers.get8(src);
    let new = old.wrapping_add(1);
    cpu.registers.set8(src, new);
    assert(((old & 0x0F) + 1 > 0x0F) == (old % 16 == 15)) by { crate::bits::lemma_u8_bits(); }
    assert(old & 0x0F <= 0x0F) by { crate::bits::lemma_u8_bits(); }
    cpu.registers.set_flag_to(FlagBits::Z, new == 0);
    cpu.registers.set_flag_to(FlagBits::N, false);
    cpu.registers.set_flag_to(FlagBits::H, (old & 0x0F) + 1 > 0x0F);
    cpu.registers.inc_pc_by(instr.size as u16);
    instr.cycles as u8
}

/// `DEC r`: Z, N and H are set, C is kept.
pub fn dec_r(instr: &Instruction, cpu: &mut Cpu, bus: &mut Bus) -> (r: u8)
    requires
        instr.execute == Handler::DecR,
        exec_ok(*instr, *old(cpu), old(bus)@),
    ensures
        (*final(cpu), final(bus)@, r) == dec_r_result(*instr, *old(cpu), old(bus)@),
{
    let src = match instr.operands {
        Operands::Reg(src) => src,
        _ => {
            proof { assert(false); }
            return 0;
        },
    };
    let old = cpu.registers.get8(src);
    let new = old.wrapping_sub(1);
    cpu.registers.set8(src, new);
    assert((old & 0x0F == 0) == (old % 16 == 0)) by { crate::bits::lemma_u8_bits(); }
    cpu.registers.set_flag_to(FlagBits::Z, new == 0);
    cpu.registers.set_flag_to(FlagBits::N, true);
    cpu.registers.set_flag_to(FlagBits::H, old & 0x0F == 0);
    cpu.registers.inc_pc_by(instr.size as u16);
    instr.cycles as u8
}

/// `INC rr` (as written here it also sets Z, N and H).
pub fn inc_rr(instr: &Instruction, cpu: &mut Cpu, bus: &mut Bus) -> (r: u8)
    requires
        instr.execute == Handler::IncRr,
        exec_ok(*instr, *old(cpu), old(bus)@),
    ensures
        (*final(cpu), final(bus)@, r) == inc_rr_result(*instr, *old(cpu), old(bus)@),
{
    let src = match instr.operands {
        Operands::Reg16(src) => src,
        _ => {
            proof { assert(false); }
            return 0;
        },
    };
    let old = cpu.registers.get16(src);
    let new = old.wrapping_add(1);
    cpu.registers.set16(src, new);
    assert(((old & 0x0F) + 1 > 0x0F) == (old % 16 == 15)) by { crate::bits::lemma_u16_bits(); }
    assert(old & 0x0F <= 0x0F) by { crate::bits::lemma_u16_bits(); }
    cpu.registers.set_flag_to(FlagBits::Z, new == 0);
    cpu.registers.set_flag_to(FlagBits::N, false);
    cpu.registers.set_flag_to(FlagBits::H, (old & 0x0F) + 1 > 0x0F);
    cpu.registers.inc_pc_by(instr.size as u16);
    instr.cycles as u8
}

/// `DEC rr` (as written here it also sets Z, N and H).
pub fn dec_rr(instr: &Instruction, cpu: &mut Cpu, bus: &mut Bus) -> (r: u8)
    requires
        instr.execute == Handler::DecRr,
        exec_ok(*instr, *old(cpu), old(bus)@),
    ensures
        (*final(cpu), final(bus)@, r) == dec_rr_result(*instr, *old(cpu), old(bus)@),
{
    let src = match instr.operands {
        Operands::Reg16(src) => src,
        _ => {
            proof { assert(false); }
            return 0;
        },
    };
    let old = cpu.registers.get16(src);
    let new = old.wrapping_sub(1);
    cpu.registers.set16(src, new);
    assert((old & 0x0F == 0) == (old % 16 == 0)) by { crate::bits::lemma_u16_bits(); }
    cpu.registers.set_flag_to(FlagBits::Z, new == 0);
    cpu.registers.set_flag_to(FlagBits::N, true);
    cpu.registers.set_flag_to(FlagBits::H, old & 0x0F == 0);
    cpu.registers.inc_pc_by(instr.size as u16);
    instr.cycles as u8
}

/// `ADD r, r'`: Z, N, H and C from the 8-bit sum.
pub fn add_r_r(instr: &Instruction, cpu: &mut Cpu, bus: &mut Bus) -> (r: u8)
    requires
        instr.execute == Handler::AddRR,
        exec_ok(*instr, *old(cpu), old(bus)@),
    ensures
        (*final(cpu), final(bus)@, r) == add_r_r_result(*instr, *old(cpu), old(bus)@),
{
    let (dest, src) = match instr.operands {
        Operands::RegReg(dest, src) => (dest, src),
        _ => {
            proof { assert(false); }
            return 0;
        },
    };
    let reg1 = cpu.registers.get8(dest);
    let reg2 = cpu.registers.get8(src);
    let sum16 = reg1 as u16 + reg2 as u16;
    assert(((sum16 & 0xFF) as u8) == (sum16 % 256) as u8) by { crate::bits::lemma_u16_bits(); }
    assert(((reg1 & 0x0F) + (reg2 & 0x0F) > 0x0F) == (reg1 % 16 + reg2 % 16 > 15)) by { crate::bits::lemma_u8_bits(); }
    assert(reg1 & 0x0F <= 0x0F && reg2 & 0x0F <= 0x0F) by { crate::bits::lemma_u8_bits(); }
    let result = (sum16 & 0xFF) as u8;
    cpu.registers.set_flag_to(FlagBits::Z, result == 0);
    cpu.registers.set_flag_to(FlagBits::N, false);
    cpu.registers.set_flag_to(FlagBits::H, (reg1 & 0x0F) + (reg2 & 0x0F) > 0x0F);
    cpu.registers.set_flag_to(FlagBits::C, sum16 > 0xFF);
    cpu.registers.set8(dest, result);
    cpu.registers.inc_pc_by(instr.size as u16);
    instr.cycles as u8
}

/// `ADD rr, rr'`: N, H (carry out of bit 11) and C from the 16-bit sum.
pub fn add_rr_rr(instr: &Instruction, cpu: &mut Cpu, bus: &mut Bus) -> (r: u8)
    requires
        instr.execute == Handler::AddRrRr,
        exec_ok(*instr, *old(cpu), old(bus)@),
    ensures
        (*final(cpu), final(bus)@, r) == add_rr_rr_result(*instr, *old(cpu), old(bus)@),
{
    let (dest, src) = match instr.operands {
        Operands::Reg16Reg16(dest, src) => (dest, src),
        _ => {
            proof { assert(false); }
            return 0;
        },
    };
    let reg1 = cpu.registers.get16(dest);
    let reg2 = cpu.registers.get16(src);
    let sum32 = reg1 as u32 + reg2 as u32;
    assert(((sum32 & 0xFFFF) as u16) == (sum32 % 0x10000) as u16) by { crate::bits::lemma_u32_bits(); }
    assert(((reg1 & 0x0FFF) + (reg2 & 0x0FFF) > 0x0FFF) == (reg1 % 4096 + reg2 % 4096 > 4095)) by { crate::bits::lemma_u16_bits(); }
    assert(reg1 & 0x0FFF <= 0x0FFF && reg2 & 0x0FFF <= 0x0FFF) by { crate::bits::lemma_u16_bits(); }
    let result = (sum32 & 0xFFFF) as u16;
    cpu.registers.set_flag_to(FlagBits::N, false);
    cpu.registers.set_flag_to(FlagBits::H, (reg1 & 0x0FFF) + (reg2 & 0x0FFF) > 0x0FFF);
    cpu.registers.set_flag_to(FlagBits::C, sum32 > 0xFFFF);
    cpu.registers.set16(dest, result);
    cpu.registers.inc_pc_by(instr.size as u16);
    instr.cycles as u8
}

/// `SUB r, r'`: the difference modulo 256, with Z, N, H (borrow from bit
/// 4) and C (borrow) set from it.
pub fn sub_r_r(instr: &Instruction, cpu: &mut Cpu, bus: &mut Bus) -> (r: u8)
    requires
        instr.execute == Handler::SubRR,
        exec_ok(*instr, *old(cpu), old(bus)@),
    ensures
        (*final(cpu), final(bus)@, r) == sub_r_r_result(*instr, *old(cpu), old(bus)@),
{
    let (dest, src) = match instr.operands {
        Operands::RegReg(dest, src) => (dest, src),
        _ => {
            proof { assert(false); }
            return 0;
        },
    };
    let reg1 = cpu.registers.get8(dest);
    let reg2 = cpu.registers.get8(src);
    let diff16 = (reg1 as u16).wrapping_sub(reg2 as u16);
    assert(((reg1 & 0x0F) < (reg2 & 0x0F)) == (reg1 % 16 < reg2 % 16)) by { crate::bits::lemma_u8_bits(); }
    assert((diff16 & 0xFF) as u8 == diff16 % 256) by { crate::bits::lemma_u16_bits(); }
    let result = (diff16 & 0xFF) as u8;
    assert(result == (reg1 - reg2 + 256) % 256);
    cpu.registers.set_flag_to(FlagBits::Z, result == 0);
    cpu.registers.set_flag_to(FlagBits::N, true);
    cpu.registers.set_flag_to(FlagBits::H, (reg1 & 0x0F) < (reg2 & 0x0F));
    cpu.registers.set_flag_to(FlagBits::C, reg1 < reg2);
    cpu.registers.set8(dest, result);
    cpu.registers.inc_pc_by(instr.size as u16);
    instr.cycles as u8
}

/// `JP a16`: jumps to the word after the opcode; reports the instruction
/// size as its cycle count.
pub fn jp_a16(instr: &Instruction, cpu: &mut Cpu, bus: &mut Bus) -> (r: u8)
    requires
        instr.execute == Handler::JpA16,
        exec_ok(*instr, *old(cpu), old(bus)@),
        old(bus)@.wf(),
    ensures
        (*final(cpu), final(bus)@, r) == jp_a16_result(*instr, *old(cpu), old(bus)@),
{
    let pc = cpu.registers.get_pc() + 1;
    let dest = bus.read_u16(pc);
    cpu.registers.inc_pc_by(instr.size as u16);
    cpu.registers.set_pc(dest);
    instr.size
}

/// `JR e8`: jumps by the signed byte after the opcode, relative to the
/// next instruction.
pub fn jr_e8(instr: &Instruction, cpu: &mut Cpu, bus: &mut Bus) -> (r: u8)
    requires
        instr.execute == Handler::JrE8,
        exec_ok(*instr, *old(cpu), old(bus)@),
        old(bus)@.wf(),
    ensures
        (*final(cpu), final(bus)@, r) == jr_e8_result(*instr, *old(cpu), old(bus)@),
{
    let pc = cpu.registers.get_pc() + 1;
    let b = bus.read(pc);
    proof { lemma_signed_byte(b); }
    let offset = b as i8;
    cpu.registers.inc_pc_by(instr.size as u16);
    let dest = cpu.registers.get_pc().wrapping_add_signed(offset as i16);
    cpu.registers.set_pc(dest);
    instr.size
}

/// `JR cc, e8`: jumps when the condition holds (12 cycles), else falls
/// through (8 cycles).
pub fn jr_cc_e8(instr: &Instruction, cpu: &mut Cpu, bus: &mut Bus) -> (r: u8)
    requires
        instr.execute == Handler::JrCcE8,
        exec_ok(*instr, *old(cpu), old(bus)@),
        old(bus)@.wf(),
    ensures
        (*final(cpu), final(bus)@, r) == jr_cc_e8_result(*instr, *old(cpu), old(bus)@),
{
    let cond = match instr.operands {
        Operands::Cond(c) => c,
        Operands::CondImm16(c) => c,
        _ => {
            proof { assert(false); }
            return 0;
        },
    };
    let pc = cpu.registers.get_pc() + 1;
    let b = bus.read(pc);
    proof { lemma_signed_byte(b); }
    let offset = b as i8;
    cpu.registers.inc_pc_by(instr.size as u16);
    let dest = cpu.registers.get_pc().wrapping_add_signed(offset as i16);
    if cpu.registers.check_conditions(cond) {
        cpu.registers.set_pc(dest);
        12
    } else {
        8
    }
}

} // verus!

verus! {

/// Runs the handler of `instr` and returns the cycle count it reports.
pub fn execute(instr: &Instruction, cpu: &mut Cpu, bus: &mut Bus) -> (r: u8)
    requires
        exec_ok(*instr, *old(cpu), old(bus)@),
        old(bus)@.wf(),
    ensures
        (*final(cpu), final(bus)@, r) == exec_result(*instr, *old(cpu), old(bus)@),
        final(bus)@.wf(),
{
    match instr.execute {
        Handler::Unimplemented => {
            proof { assert(false); }
            0
        },
        Handler::Nop => nop(instr, cpu, bus),
        Handler::LdRR => ld_r_r(instr, cpu, bus),
        Handler::LdRN8 => ld_r_n8(instr, cpu, bus),
        Handler::LdRrN16 => ld_rr_n16(instr, cpu, bus),
        Handler::LdDerefRrA => ld_deref_rr_a(instr, cpu, bus),
        Handler::LdhRMem => ldh_r_mem(instr, cpu, bus),
        Handler::LdhMemR => ldh_mem_r(instr, cpu, bus),
        Handler::IncR => inc_r(instr, cpu, bus),
        Handler::DecR => dec_r(instr, cpu, bus),
        Handler::IncRr => inc_rr(instr, cpu, bus),
        Handler::DecRr => dec_rr(instr, cpu, bus),
        Handler::AddRR => add_r_r(instr, cpu, bus),
        Handler::AddRrRr => add_rr_rr(instr, cpu, bus),
        Handler::SubRR => sub_r_r(instr, cpu, bus),
        Handler::JpA16 => jp_a16(instr, cpu, bus),
        Handler::JrE8 => jr_e8(instr, cpu, bus),
        Handler::JrCcE8 => jr_cc_e8(instr, cpu, bus),
    }
}

} // verus!

verus! {

/// Whether `execute(instr, cpu, bus)` is defined (see `exec_ok`).
pub fn can_execute(instr: &Instruction, cpu: &Cpu, bus: &Bus) -> (r: bool)
    requires
        bus@.wf(),
    ensures
        r == exec_ok(*instr, *cpu, bus@),
{
    let pc = cpu.registers.pc;
    match instr.execute {
        Handler::Unimplemented => false,
        Handler::Nop => true,
        Handler::LdRR => matches!(instr.operands, Operands::RegReg(_, _)),
        Handler::LdRN8 => matches!(instr.operands, Operands::RegImm8(_)) && pc < 0xFFFF
            && bus.can_read(pc + 1),
        Handler::LdRrN16 => matches!(instr.operands, Operands::Reg16Imm16(_)) && pc < 0xFFFE
            && bus.can_read(pc + 1) && bus.can_read(pc + 2),
        Handler::LdDerefRrA => instr.opcode < 0x40
            && bus.can_write(cpu.registers.get_by_index_u16(instr.opcode), cpu.registers.a),
        Handler::LdhRMem => match instr.operands {
            Operands::RegMem(_, mem) => pc < 0xFFFF && match mem {
                MemTarget::HighC => bus.can_read(0xFF00 + cpu.registers.c as u16),
                MemTarget::HighImm8 => bus.can_read(pc + 1) && bus.can_read(0xFF00 + bus.read(pc + 1) as u16),
                _ => false,
            },
            _ => false,
        },
        Handler::LdhMemR => match instr.operands {
            Operands::MemReg(mem, src) => pc < 0xFFFF && match mem {
                MemTarget::HighC => bus.can_write(0xFF00 + cpu.registers.c as u16, cpu.registers.get8(src)),
                MemTarget::HighImm8 => bus.can_read(pc + 1)
                    && bus.can_write(0xFF00 + bus.read(pc + 1) as u16, cpu.registers.get8(src)),
                _ => false,
            },
            _ => false,
        },
        Handler::IncR => matches!(instr.operands, Operands::Reg(_)),
        Handler::DecR => matches!(instr.operands, Operands::Reg(_)),
        Handler::IncRr => matches!(instr.operands, Operands::Reg16(_)),
        Handler::DecRr => matches!(instr.operands, Operands::Reg16(_)),
        Handler::AddRR => matches!(instr.operands, Operands::RegReg(_, _)),
        Handler::AddRrRr => matches!(instr.operands, Operands::Reg16Reg16(_, _)),
        Handler::SubRR => matches!(instr.operands, Operands::RegReg(_, _)),
        Handler::JpA16 => pc < 0xFFFE && bus.can_read(pc + 1) && bus.can_read(pc + 2),
        Handler::JrE8 => pc < 0xFFFF && bus.can_read(pc + 1),
        Handler::JrCcE8 => pc < 0xFFFF && bus.can_read(pc + 1)
            && (matches!(instr.operands, Operands::Cond(_)) || matches!(instr.operands, Operands::CondImm16(_))),
    }
}

} // verus!

verus! {

/// The `HL` adjustment of a table operand.
pub open spec fn spec_delta(op: RawOperand) -> Delta {
    if op.increment {
        Delta::Increment
    } else if op.decrement {
        Delta::Decrement
    } else {
        Delta::Unchanged
    }
}

/// The operand that a register or immediate name denotes, before memory
/// operands are formed.
pub open spec fn spec_base_operand(op: RawOperand) -> Option<OperandKind> {
    let n = op.name@;
    if n == "A"@ {
        Some(OperandKind::Reg8(Reg8::A))
    } else if n == "B"@ {
        Some(OperandKind::Reg8(Reg8::B))
    } else if n == "C"@ {
        Some(OperandKind::Reg8(Reg8::C))
    } else if n == "D"@ {
        Some(OperandKind::Reg8(Reg8::D))
    } else if n == "E"@ {
        Some(OperandKind::Reg8(Reg8::E))
    } else if n == "F"@ {
        Some(OperandKind::Reg8(Reg8::F))
    } else if n == "H"@ {
        Some(OperandKind::Reg8(Reg8::H))
    } else if n == "L"@ {
        Some(OperandKind::Reg8(Reg8::L))
    } else if n == "BC"@ {
        Some(OperandKind::Reg16(Reg16::BC))
    } else if n == "DE"@ {
        Some(OperandKind::Reg16(Reg16::DE))
    } else if n == "HL"@ {
        if op.increment && op.decrement { None } else { Some(OperandKind::Reg16(Reg16::HL(spec_delta(op)))) }
    } else if n == "SP"@ {
        Some(OperandKind::Reg16(Reg16::SP))
    } else if n == "AF"@ {
        Some(OperandKind::Reg16(Reg16::AF))
    } else if n == "n8"@ || n == "d8"@ {
        Some(OperandKind::Imm8)
    } else if n == "n16"@ || n == "d16"@ || n == "a16"@ {
        Some(OperandKind::Imm16)
    } else if n == "a8"@ || n == "e8"@ {
        Some(OperandKind::Imm8)
    } else if n == "$00"@ || n == "$08"@ || n == "$10"@ || n == "$18"@ || n == "$20"@ || n == "$28"@
        || n == "$30"@ || n == "$38"@ {
        Some(OperandKind::Fixed)
    } else {
        None
    }
}

/// The kind of a table operand; `None` where the table entry is not
/// understood. The first operand of a branch is read as a condition.
pub open spec fn spec_operand_kind(op: RawOperand, as_condition: bool) -> Option<OperandKind> {
    let n = op.name@;
    if as_condition {
        if n == "Z"@ {
            Some(OperandKind::Cond(Condition::Z))
        } else if n == "NZ"@ {
            Some(OperandKind::Cond(Condition::NZ))
        } else if n == "C"@ {
            Some(OperandKind::Cond(Condition::C))
        } else if n == "NC"@ {
            Some(OperandKind::Cond(Condition::NC))
        } else if n == "a16"@ {
            Some(OperandKind::Imm16)
        } else if n == "e8"@ {
            Some(OperandKind::Imm8)
        } else if n == "HL"@ {
            if op.increment && op.decrement { None } else { Some(OperandKind::Reg16(Reg16::HL(spec_delta(op)))) }
        } else {
            None
        }
    } else {
        match spec_base_operand(op) {
            None => None,
            Some(base) => if op.immediate {
                Some(base)
            } else {
                match base {
                    OperandKind::Reg16(target) => Some(OperandKind::Mem(MemTarget::Reg16(target))),
                    OperandKind::Imm16 => Some(OperandKind::Mem(MemTarget::Imm16)),
                    OperandKind::Imm8 => Some(OperandKind::Mem(MemTarget::HighImm8)),
                    OperandKind::Reg8(_) => Some(OperandKind::Mem(MemTarget::HighC)),
                    _ => None,
                }
            },
        }
    }
}

/// Classifies a table operand (see `spec_operand_kind`).
pub fn operand_kind(operand: &RawOperand, as_condition: bool) -> (r: Option<OperandKind>)
    ensures
        r == spec_operand_kind(*operand, as_condition),
{
    let n = operand.name.as_str();
    if as_condition {
        return if str_is(n, "Z") {
            Some(OperandKind::Cond(Condition::Z))
        } else if str_is(n, "NZ") {
            Some(OperandKind::Cond(Condition::NZ))
        } else if str_is(n, "C") {
            Some(OperandKind::Cond(Condition::C))
        } else if str_is(n, "NC") {
            Some(OperandKind::Cond(Condition::NC))
        } else if str_is(n, "a16") {
            Some(OperandKind::Imm16)
        } else if str_is(n, "e8") {
            Some(OperandKind::Imm8)
        } else if str_is(n, "HL") {
            if operand.increment && operand.decrement {
                None
            } else {
                Some(OperandKind::Reg16(Reg16::HL(operand.delta())))
            }
        } else {
            None
        };
    }
    let base = if str_is(n, "A") {
        Some(OperandKind::Reg8(Reg8::A))
    } else if str_is(n, "B") {
        Some(OperandKind::Reg8(Reg8::B))
    } else if str_is(n, "C") {
        Some(OperandKind::Reg8(Reg8::C))
    } else if str_is(n, "D") {
        Some(OperandKind::Reg8(Reg8::D))
    } else if str_is(n, "E") {
        Some(OperandKind::Reg8(Reg8::E))
    } else if str_is(n, "F") {
        Some(OperandKind::Reg8(Reg8::F))
    } else if str_is(n, "H") {
        Some(OperandKind::Reg8(Reg8::H))
    } else if str_is(n, "L") {
        Some(OperandKind::Reg8(Reg8::L))
    } else if str_is(n, "BC") {
        Some(OperandKind::Reg16(Reg16::BC))
    } else if str_is(n, "DE") {
        Some(OperandKind::Reg16(Reg16::DE))
    } else if str_is(n, "HL") {
        if operand.increment && operand.decrement {
            None
        } else {
            Some(OperandKind::Reg16(Reg16::HL(operand.delta())))
        }
    } else if str_is(n, "SP") {
        Some(OperandKind::Reg16(Reg16::SP))
    } else if str_is(n, "AF") {
        Some(OperandKind::Reg16(Reg16::AF))
    } else if str_is(n, "n8") || str_is(n, "d8") {
        Some(OperandKind::Imm8)
    } else if str_is(n, "n16") || str_is(n, "d16") || str_is(n, "a16") {
        Some(OperandKind::Imm16)
    } else if str_is(n, "a8") || str_is(n, "e8") {
        Some(OperandKind::Imm8)
    } else if str_is(n, "$00") || str_is(n, "$08") || str_is(n, "$10") || str_is(n, "$18")
        || str_is(n, "$20") || str_is(n, "$28") || str_is(n, "$30") || str_is(n, "$38") {
        Some(OperandKind::Fixed)
    } else {
        None
    };
    match base {
        None => None,
        Some(base) => if operand.immediate {
            Some(base)
        } else {
            match base {
                OperandKind::Reg16(target) => Some(OperandKind::Mem(MemTarget::Reg16(target))),
                OperandKind::Imm16 => Some(OperandKind::Mem(MemTarget::Imm16)),
                OperandKind::Imm8 => Some(OperandKind::Mem(MemTarget::HighImm8)),
                OperandKind::Reg8(_) => Some(OperandKind::Mem(MemTarget::HighC)),
                _ => None,
            }
        },
    }
}

/// The kind of a table operand that is understood.
pub fn operand_from_raw(operand: &RawOperand, as_condition: bool) -> (k: OperandKind)
    requires
        spec_operand_kind(*operand, as_condition) is Some,
    ensures
        k == spec_operand_kind(*operand, as_condition)->0,
{
    match operand_kind(operand, as_condition) {
        Some(k) => k,
        None => {
            proof { assert(false); }
            OperandKind::Fixed
        },
    }
}

/// Whether a mnemonic is a branch, whose first operand is a condition.
pub open spec fn is_branch(mnemonic: Seq<char>) -> bool {
    mnemonic == "JP"@ || mnemonic == "JR"@ || mnemonic == "CALL"@ || mnemonic == "RET"@
}

/// The operand shape for the kinds of the first two operands.
pub open spec fn spec_combine(first: OperandKind, second: OperandKind) -> Operands {
    match (first, second) {
        (OperandKind::Reg8(r1), OperandKind::Empty) => Operands::Reg(r1),
        (OperandKind::Reg8(r1), OperandKind::Reg8(r2)) => Operands::RegReg(r1, r2),
        (OperandKind::Reg8(r1), OperandKind::Imm8) => Operands::RegImm8(r1),
        (OperandKind::Reg16(r1), OperandKind::Empty) => Operands::Reg16(r1),
        (OperandKind::Reg16(r1), OperandKind::Reg16(r2)) => Operands::Reg16Reg16(r1, r2),
        (OperandKind::Reg16(r1), OperandKind::Imm16) => Operands::Reg16Imm16(r1),
        (OperandKind::Mem(t), OperandKind::Reg8(r1)) => Operands::MemReg(t, r1),
        (OperandKind::Reg8(r1), OperandKind::Mem(t)) => Operands::RegMem(r1, t),
        (OperandKind::Cond(c), OperandKind::Empty) => Operands::Cond(c),
        (OperandKind::Cond(c), OperandKind::Imm16) => Operands::CondImm16(c),
        (OperandKind::Imm16, OperandKind::Empty) => Operands::Imm16,
        _ => Operands::Empty,
    }
}

/// Whether the first two operands of an entry are understood.
pub open spec fn operands_ok(mnemonic: Seq<char>, ops: Seq<RawOperand>) -> bool {
    &&& ops.len() >= 1 ==> spec_operand_kind(ops[0], is_branch(mnemonic)) is Some
    &&& ops.len() >= 2 ==> spec_operand_kind(ops[1], false) is Some
}

/// The operand shape of an entry, from its first two operands.
pub open spec fn spec_operands(mnemonic: Seq<char>, ops: Seq<RawOperand>) -> Operands {
    if ops.len() > 1 {
        spec_combine(
            spec_operand_kind(ops[0], is_branch(mnemonic))->0,
            spec_operand_kind(ops[1], false)->0,
        )
    } else if ops.len() == 1 {
        spec_combine(spec_operand_kind(ops[0], is_branch(mnemonic))->0, OperandKind::Empty)
    } else {
        Operands::Empty
    }
}

pub fn operands_from_raw(mnemonic: &str, operands: &Vec<RawOperand>) -> (r: Operands)
    requires
        operands_ok(mnemonic@, operands@),
    ensures
        r == spec_operands(mnemonic@, operands@),
{
    let is_branch = str_is(mnemonic, "JP") || str_is(mnemonic, "JR") || str_is(mnemonic, "CALL")
        || str_is(mnemonic, "RET");
    let oper_tuple = if operands.len() > 1 {
        (operand_from_raw(&operands[0], is_branch), operand_from_raw(&operands[1], false))
    } else if operands.len() == 1 {
        (operand_from_raw(&operands[0], is_branch), OperandKind::Empty)
    } else {
        (OperandKind::Empty, OperandKind::Empty)
    };
    match oper_tuple {
        (OperandKind::Reg8(reg1), OperandKind::Empty) => Operands::Reg(reg1),
        (OperandKind::Reg8(reg1), OperandKind::Reg8(reg2)) => Operands::RegReg(reg1, reg2),
        (OperandKind::Reg8(reg1), OperandKind::Imm8) => Operands::RegImm8(reg1),
        (OperandKind::Reg16(reg1), OperandKind::Empty) => Operands::Reg16(reg1),
        (OperandKind::Reg16(reg1), OperandKind::Reg16(reg2)) => Operands::Reg16Reg16(reg1, reg2),
        (OperandKind::Reg16(reg1), OperandKind::Imm16) => Operands::Reg16Imm16(reg1),
        (OperandKind::Mem(target), OperandKind::Reg8(reg1)) => Operands::MemReg(target, reg1),
        (OperandKind::Reg8(reg1), OperandKind::Mem(target)) => Operands::RegMem(reg1, target),
        (OperandKind::Cond(condition), OperandKind::Empty) => Operands::Cond(condition),
        (OperandKind::Cond(condition), OperandKind::Imm16) => Operands::CondImm16(condition),
        (OperandKind::Imm16, OperandKind::Empty) => Operands::Imm16,
        _ => Operands::Empty,
    }
}

/// The flags that an entry affects, in the order Z, N, H, C.
pub open spec fn spec_flags(raw: RawFlags) -> Seq<FlagBits> {
    (if raw.z@ != "-"@ { seq![FlagBits::Z] } else { Seq::empty() })
        + (if raw.n@ != "-"@ { seq![FlagBits::N] } else { Seq::empty() })
        + (if raw.h@ != "-"@ { seq![FlagBits::H] } else { Seq::empty() })
        + (if raw.c@ != "-"@ { seq![FlagBits::C] } else { Seq::empty() })
}

pub fn flags_from_raw(raw: &RawFlags) -> (v: Vec<FlagBits>)
    ensures
        v@ == spec_flags(*raw),
{
    let mut v = Vec::new();
    if !str_is(raw.z.as_str(), "-") {
        v.push(FlagBits::Z);
    }
    if !str_is(raw.n.as_str(), "-") {
        v.push(FlagBits::N);
    }
    if !str_is(raw.h.as_str(), "-") {
        v.push(FlagBits::H);
    }
    if !str_is(raw.c.as_str(), "-") {
        v.push(FlagBits::C);
    }
    proof {
        let z: Seq<FlagBits> = if raw.z@ != "-"@ { seq![FlagBits::Z] } else { Seq::empty() };
        let n: Seq<FlagBits> = if raw.n@ != "-"@ { seq![FlagBits::N] } else { Seq::empty() };
        let h: Seq<FlagBits> = if raw.h@ != "-"@ { seq![FlagBits::H] } else { Seq::empty() };
        let c: Seq<FlagBits> = if raw.c@ != "-"@ { seq![FlagBits::C] } else { Seq::empty() };
        assert(v@ =~= z + n + h + c);
    }
    v
}

/// The handler for a mnemonic and operand shape; everything not listed
/// is unimplemented.
pub open spec fn spec_dispatch(mnemonic: Seq<char>, operands: Operands) -> Handler {
    if mnemonic == "NOP"@ && operands is Empty {
        Handler::Nop
    } else if mnemonic == "LD"@ && operands is RegReg {
        Handler::LdRR
    } else if mnemonic == "LD"@ && operands is RegImm8 {
        Handler::LdRN8
    } else if mnemonic == "LD"@ && operands is Reg16Imm16 {
        Handler::LdRrN16
    } else if mnemonic == "LDH"@ && operands is RegMem {
        Handler::LdhRMem
    } else if mnemonic == "LDH"@ && operands is MemReg {
        Handler::LdhMemR
    } else if mnemonic == "INC"@ && operands is Reg {
        Handler::IncR
    } else if mnemonic == "INC"@ && operands is Reg16 {
        Handler::IncRr
    } else if mnemonic == "DEC"@ && operands is Reg {
        Handler::DecR
    } else if mnemonic == "DEC"@ && operands is Reg16 {
        Handler::DecRr
    } else if mnemonic == "ADD"@ && operands is RegReg {
        Handler::AddRR
    } else if mnemonic == "ADD"@ && operands is Reg16Reg16 {
        Handler::AddRrRr
    } else if mnemonic == "SUB"@ && operands is RegReg {
        Handler::SubRR
    } else if mnemonic == "JP"@ && operands is Imm16 {
        Handler::JpA16
    } else {
        Handler::Unimplemented
    }
}

pub fn dispatch_for(opcode: u8, is_cb: bool, mnemonic: &str, operands: Operands) -> (h: Handler)
    ensures
        h == spec_dispatch(mnemonic@, operands),
{
    if str_is(mnemonic, "NOP") && matches!(operands, Operands::Empty) {
        Handler::Nop
    } else if str_is(mnemonic, "LD") && matches!(operands, Operands::RegReg(_, _)) {
        Handler::LdRR
    } else if str_is(mnemonic, "LD") && matches!(operands, Operands::RegImm8(_)) {
        Handler::LdRN8
    } else if str_is(mnemonic, "LD") && matches!(operands, Operands::Reg16Imm16(_)) {
        Handler::LdRrN16
    } else if str_is(mnemonic, "LDH") && matches!(operands, Operands::RegMem(_, _)) {
        Handler::LdhRMem
    } else if str_is(mnemonic, "LDH") && matches!(operands, Operands::MemReg(_, _)) {
        Handler::LdhMemR
    } else if str_is(mnemonic, "INC") && matches!(operands, Operands::Reg(_)) {
        Handler::IncR
    } else if str_is(mnemonic, "INC") && matches!(operands, Operands::Reg16(_)) {
        Handler::IncRr
    } else if str_is(mnemonic, "DEC") && matches!(operands, Operands::Reg(_)) {
        Handler::DecR
    } else if str_is(mnemonic, "DEC") && matches!(operands, Operands::Reg16(_)) {
        Handler::DecRr
    } else if str_is(mnemonic, "ADD") && matches!(operands, Operands::RegReg(_, _)) {
        Handler::AddRR
    } else if str_is(mnemonic, "ADD") && matches!(operands, Operands::Reg16Reg16(_, _)) {
        Handler::AddRrRr
    } else if str_is(mnemonic, "SUB") && matches!(operands, Operands::RegReg(_, _)) {
        Handler::SubRR
    } else if str_is(mnemonic, "JP") && matches!(operands, Operands::Imm16) {
        Handler::JpA16
    } else {
        Handler::Unimplemented
    }
}

} // verus!

verus! {

/// Whether every entry of a table description can be built: its key names
/// an opcode, it lists at least one cycle count, and its operands are
/// understood.
pub open spec fn raw_table_ok(entries: Seq<(String, RawOpcode)>) -> bool {
    forall|i: int| 0 <= i < entries.len() ==> #[trigger] entry_ok(entries[i])
}

pub open spec fn entry_ok(entry: (String, RawOpcode)) -> bool {
    &&& opcode_key(entry.0@) is Some
    &&& entry.1.cycles@.len() > 0
    &&& operands_ok(entry.1.mnemonic@, entry.1.operands@)
}

/// The index of the last entry whose key names `op` (later entries
/// replace earlier ones).
pub open spec fn last_entry_for(entries: Seq<(String, RawOpcode)>, op: u8) -> Option<int>
    decreases entries.len(),
{
    if entries.len() == 0 {
        None
    } else if opcode_key(entries.last().0@) == Some(op) {
        Some(entries.len() - 1)
    } else {
        last_entry_for(entries.drop_last(), op)
    }
}

/// The last entry for an opcode is one of the entries, and its key names
/// the opcode.
proof fn lemma_last_entry_in_range(entries: Seq<(String, RawOpcode)>, op: u8)
    ensures
        last_entry_for(entries, op) matches Some(j) ==> 0 <= j < entries.len()
            && opcode_key(entries[j].0@) == Some(op),
    decreases entries.len(),
{
    if entries.len() > 0 && opcode_key(entries.last().0@) != Some(op) {
        lemma_last_entry_in_range(entries.drop_last(), op);
    }
}

/// `instr` is the table entry built from `raw` for opcode `op`.
pub open spec fn built_from(instr: Instruction, raw: RawOpcode, op: u8) -> bool {
    let ops = spec_operands(raw.mnemonic@, raw.operands@);
    &&& instr.opcode == op
    &&& instr.name@ == raw.mnemonic@
    &&& instr.cycles == raw.cycles@[0]
    &&& instr.size == raw.bytes
    &&& instr.flags@ == spec_flags(raw.flags)
    &&& instr.operands == ops
    &&& instr.execute == spec_dispatch(raw.mnemonic@, ops)
}

/// The 256-entry table that a description builds.
pub open spec fn is_table_of(table: Seq<Option<Instruction>>, entries: Seq<(String, RawOpcode)>) -> bool {
    &&& table.len() == 256
    &&& forall|op: u8| #![trigger table[op as int]] match last_entry_for(entries, op) {
        Some(j) => table[op as int] is Some && built_from(table[op as int]->0, entries[j].1, op),
        None => table[op as int] is None,
    }
}

/// Whether a table description can be built (see `raw_table_ok`).
pub fn raw_table_is_valid(raw_map: &Vec<(String, RawOpcode)>) -> (r: bool)
    ensures
        r == raw_table_ok(raw_map@),
{
    let mut i: usize = 0;
    while i < raw_map.len()
        invariant
            i <= raw_map@.len(),
            forall|j: int| 0 <= j < i ==> #[trigger] entry_ok(raw_map@[j]),
        decreases raw_map@.len() - i,
    {
        let (key, raw) = &raw_map[i];
        let ok = parse_opcode_key(key.as_str()).is_some() && raw.cycles.len() > 0
            && (raw.operands.len() < 1
                || operand_kind(&raw.operands[0], str_is(raw.mnemonic.as_str(), "JP")
                    || str_is(raw.mnemonic.as_str(), "JR") || str_is(raw.mnemonic.as_str(), "CALL")
                    || str_is(raw.mnemonic.as_str(), "RET")).is_some())
            && (raw.operands.len() < 2 || operand_kind(&raw.operands[1], false).is_some());
        if !ok {
            assert(!entry_ok(raw_map@[i as int]));
            return false;
        }
        i += 1;
    }
    true
}

/// Builds the 256-entry instruction table from a table description.
pub fn build_table(raw_map: &Vec<(String, RawOpcode)>, is_cb: bool) -> (table: Vec<Option<Instruction>>)
    requires
        raw_table_ok(raw_map@),
    ensures
        is_table_of(table@, raw_map@),
{
    let mut table: Vec<Option<Instruction>> = Vec::new();
    let mut k: usize = 0;
    while k < 256
        invariant
            k <= 256,
            table@.len() == k,
            forall|j: int| 0 <= j < k ==> table@[j] is None,
        decreases 256 - k,
    {
        table.push(None);
        k += 1;
    }
    let mut i: usize = 0;
    while i < raw_map.len()
        invariant
            i <= raw_map@.len(),
            raw_table_ok(raw_map@),
            is_table_of(table@, raw_map@.subrange(0, i as int)),
        decreases raw_map@.len() - i,
    {
        let (key, raw) = &raw_map[i];
        assert(entry_ok(raw_map@[i as int]));
        let opcode = match parse_opcode_key(key.as_str()) {
            Some(op) => op,
            None => {
                proof { assert(false); }
                return table;
            },
        };
        let operands = operands_from_raw(raw.mnemonic.as_str(), &raw.operands);
        let instr = Instruction {
            opcode,
            name: raw.mnemonic.clone(),
            cycles: raw.cycles[0],
            size: raw.bytes,
            flags: flags_from_raw(&raw.flags),
            execute: dispatch_for(opcode, is_cb, raw.mnemonic.as_str(), operands),
            operands,
        };
        let ghost prev = table@;
        table.set(opcode as usize, Some(instr));
        proof {
            let done = raw_map@.subrange(0, i + 1);
            assert(done.drop_last() =~= raw_map@.subrange(0, i as int));
            assert(done.last() == raw_map@[i as int]);
            assert forall|op: u8| #![trigger table@[op as int]] match last_entry_for(done, op) {
                Some(j) => table@[op as int] is Some && built_from(table@[op as int]->0, done[j].1, op),
                None => table@[op as int] is None,
            } by {
                if op == opcode {
                    assert(last_entry_for(done, op) == Some(i as int));
                } else {
                    assert(last_entry_for(done, op) == last_entry_for(raw_map@.subrange(0, i as int), op));
                    match last_entry_for(raw_map@.subrange(0, i as int), op) {
                        Some(j) => {
                            lemma_last_entry_in_range(raw_map@.subrange(0, i as int), op);
                            assert(done[j] == raw_map@.subrange(0, i as int)[j]);
                        },
                        None => {},
                    }
                }
            }
        }
        i += 1;
    }
    assert(raw_map@.subrange(0, raw_map@.len() as int) =~= raw_map@);
    table
}

/// The table of unprefixed opcodes.
pub fn opcodes(file: &OpcodeFile) -> (table: Vec<Option<Instruction>>)
    requires
        raw_table_ok(file.unprefixed@),
    ensures
        is_table_of(table@, file.unprefixed@),
{
    build_table(&file.unprefixed, false)
}

/// The table of 0xCB-prefixed opcodes.
pub fn opcodes_cb(file: &OpcodeFile) -> (table: Vec<Option<Instruction>>)
    requires
        raw_table_ok(file.cbprefixed@),
    ensures
        is_table_of(table@, file.cbprefixed@),
{
    build_table(&file.cbprefixed, false)
}

} // verus!

verus! {

/// `DEC r` counts the register down by one, wrapping 0 to 0xFF; Z is set
/// exactly when the register has become zero (it was 1), N is set, H is set
/// exactly on a borrow from bit 4 (the low nibble was 0), C is kept, PC
/// moves past the instruction, memory is untouched, and the instruction
/// takes its table cycle count.
#[verifier::spinoff_prover]
pub proof fn lemma_dec_r_flags(instr: Instruction, cpu: Cpu, bus: BusView)
    requires
        instr.execute == Handler::DecR,
        instr.operands is Reg,
        instr.operands->Reg_0 != Reg8::F,
    ensures
        ({
            let reg = instr.operands->Reg_0;
            let before = cpu.registers.spec_get8(reg);
            let after = exec_result(instr, cpu, bus).0.registers;
            &&& after.spec_get8(reg) as int == if before == 0 { 255 } else { before - 1 }
            &&& after.spec_flag(FlagBits::Z) == (after.spec_get8(reg) == 0)
            &&& after.spec_flag(FlagBits::Z) == (before == 1)
            &&& after.spec_flag(FlagBits::N)
            &&& after.spec_flag(FlagBits::H) == (before % 16 == 0)
            &&& after.spec_flag(FlagBits::C) == cpu.registers.spec_flag(FlagBits::C)
            &&& after.pc as int == (cpu.registers.pc + instr.size) % 0x10000
            &&& exec_result(instr, cpu, bus).1 == bus
            &&& exec_result(instr, cpu, bus).2 == instr.cycles
        }),
{
    assert(exec_result(instr, cpu, bus) == dec_r_result(instr, cpu, bus));
    let reg = instr.operands->Reg_0;
    let before = cpu.registers.spec_get8(reg);
    let new = ((before + 255) % 256) as u8;
    let r = cpu.registers.spec_set8(reg, new);
    assert(r.f == cpu.registers.f);
    let r1 = Registers { f: Registers::spec_flag_to(r.f, FlagBits::Z, new == 0), ..r };
    lemma_flag_to(r, FlagBits::Z, new == 0);
    let r2 = Registers { f: Registers::spec_flag_to(r1.f, FlagBits::N, true), ..r1 };
    lemma_flag_to(r1, FlagBits::N, true);
    let r3 = Registers { f: Registers::spec_flag_to(r2.f, FlagBits::H, before % 16 == 0), ..r2 };
    lemma_flag_to(r2, FlagBits::H, before % 16 == 0);
    assert(r3.spec_get8(reg) == new);
    let after = dec_r_result(instr, cpu, bus).0.registers;
    assert(after.f == r3.f);
    assert(after.spec_get8(reg) == new);
    assert(new == 0 <==> before == 1);
    assert(r3.spec_flag(FlagBits::Z) == (new == 0));
    assert(r3.spec_flag(FlagBits::N));
    assert(r3.spec_flag(FlagBits::C) == r.spec_flag(FlagBits::C));
    assert(r.spec_flag(FlagBits::C) == cpu.registers.spec_flag(FlagBits::C));
}

/// The flags that `flags3` writes read as given; C reads as before.
proof fn lemma_flags3_read(r: Registers, z: bool, n: bool, h: bool)
    ensures
        (Registers { f: flags3(r.f, z, n, h), ..r }).spec_flag(FlagBits::Z) == z,
        (Registers { f: flags3(r.f, z, n, h), ..r }).spec_flag(FlagBits::N) == n,
        (Registers { f: flags3(r.f, z, n, h), ..r }).spec_flag(FlagBits::H) == h,
        (Registers { f: flags3(r.f, z, n, h), ..r }).spec_flag(FlagBits::C) == r.spec_flag(FlagBits::C),
{
    let r1 = Registers { f: Registers::spec_flag_to(r.f, FlagBits::Z, z), ..r };
    lemma_flag_to(r, FlagBits::Z, z);
    let r2 = Registers { f: Registers::spec_flag_to(r1.f, FlagBits::N, n), ..r1 };
    lemma_flag_to(r1, FlagBits::N, n);
    lemma_flag_to(r2, FlagBits::H, h);
}

/// The flags that `flags4` writes read as given.
proof fn lemma_flags4_read(r: Registers, z: bool, n: bool, h: bool, c: bool)
    ensures
        (Registers { f: flags4(r.f, z, n, h, c), ..r }).spec_flag(FlagBits::Z) == z,
        (Registers { f: flags4(r.f, z, n, h, c), ..r }).spec_flag(FlagBits::N) == n,
        (Registers { f: flags4(r.f, z, n, h, c), ..r }).spec_flag(FlagBits::H) == h,
        (Registers { f: flags4(r.f, z, n, h, c), ..r }).spec_flag(FlagBits::C) == c,
{
    lemma_flags3_read(r, z, n, h);
    let r3 = Registers { f: flags3(r.f, z, n, h), ..r };
    lemma_flag_to(r3, FlagBits::C, c);
}

/// `INC r` counts the register up by one, wrapping 0xFF to 0; Z is set
/// exactly when the register has become zero (it was 0xFF), N is cleared,
/// H is set exactly on a carry out of bit 3 (the low nibble was 0xF), C is
/// kept, PC moves past the instruction, memory is untouched, and the
/// instruction takes its table cycle count.
#[verifier::spinoff_prover]
pub proof fn lemma_inc_r_flags(instr: Instruction, cpu: Cpu, bus: BusView)
    requires
        instr.execute == Handler::IncR,
        instr.operands is Reg,
        instr.operands->Reg_0 != Reg8::F,
    ensures
        ({
            let reg = instr.operands->Reg_0;
            let before = cpu.registers.spec_get8(reg);
            let after = exec_result(instr, cpu, bus).0.registers;
            &&& after.spec_get8(reg) as int == if before == 255 { 0 } else { before + 1 }
            &&& after.spec_flag(FlagBits::Z) == (after.spec_get8(reg) == 0)
            &&& after.spec_flag(FlagBits::Z) == (before == 255)
            &&& !after.spec_flag(FlagBits::N)
            &&& after.spec_flag(FlagBits::H) == (before % 16 == 15)
            &&& after.spec_flag(FlagBits::C) == cpu.registers.spec_flag(FlagBits::C)
            &&& after.pc as int == (cpu.registers.pc + instr.size) % 0x10000
            &&& exec_result(instr, cpu, bus).1 == bus
            &&& exec_result(instr, cpu, bus).2 == instr.cycles
        }),
{
    assert(exec_result(instr, cpu, bus) == inc_r_result(instr, cpu, bus));
    let reg = instr.operands->Reg_0;
    let before = cpu.registers.spec_get8(reg);
    let new = ((before + 1) % 256) as u8;
    let r = cpu.registers.spec_set8(reg, new);
    lemma_flags3_read(r, new == 0, false, before % 16 == 15);
    let after = inc_r_result(instr, cpu, bus).0.registers;
    assert(after.f == flags3(r.f, new == 0, false, before % 16 == 15));
    assert(r.spec_flag(FlagBits::C) == cpu.registers.spec_flag(FlagBits::C));
}

/// `ADD r, r'` puts the sum modulo 256 in the destination; Z is set
/// exactly when that is zero, N is cleared, H is set exactly on a carry out
/// of bit 3 and C exactly on a carry out of bit 7 (the true sum exceeds
/// 0xFF), PC moves past the instruction, memory is untouched, and the
/// instruction takes its table cycle count.
#[verifier::spinoff_prover]
pub proof fn lemma_add_r_r_flags(instr: Instruction, cpu: Cpu, bus: BusView)
    requires
        instr.execute == Handler::AddRR,
        instr.operands is RegReg,
        instr.operands->RegReg_0 != Reg8::F,
    ensures
        ({
            let a = cpu.registers.spec_get8(instr.operands->RegReg_0);
            let b = cpu.registers.spec_get8(instr.operands->RegReg_1);
            let after = exec_result(instr, cpu, bus).0.registers;
            let result = after.spec_get8(instr.operands->RegReg_0);
            &&& result as int == if a + b > 255 { a + b - 256 } else { a + b }
            &&& after.spec_flag(FlagBits::Z) == (result == 0)
            &&& !after.spec_flag(FlagBits::N)
            &&& after.spec_flag(FlagBits::H) == (a % 16 + b % 16 >= 16)
            &&& after.spec_flag(FlagBits::C) == (a + b >= 256)
            &&& after.pc as int == (cpu.registers.pc + instr.size) % 0x10000
            &&& exec_result(instr, cpu, bus).1 == bus
            &&& exec_result(instr, cpu, bus).2 == instr.cycles
        }),
{
    assert(exec_result(instr, cpu, bus) == add_r_r_result(instr, cpu, bus));
    let dest = instr.operands->RegReg_0;
    let a = cpu.registers.spec_get8(dest);
    let b = cpu.registers.spec_get8(instr.operands->RegReg_1);
    let result = ((a + b) % 256) as u8;
    let regs = cpu.registers;
    lemma_flags4_read(regs, result == 0, false, a % 16 + b % 16 > 15, a + b > 255);
    let rf = Registers { f: flags4(regs.f, result == 0, false, a % 16 + b % 16 > 15, a + b > 255), ..regs };
    let after = add_r_r_result(instr, cpu, bus).0.registers;
    assert(after.f == rf.f);
}

/// `SUB r, r'` puts the difference modulo 256 in the destination; Z is set
/// exactly when that is zero, N is set, H is set exactly on a borrow from
/// bit 4 and C exactly on a borrow (the subtrahend is the larger), PC
/// moves past the instruction, memory is untouched, and the instruction
/// takes its table cycle count.
#[verifier::spinoff_prover]
pub proof fn lemma_sub_r_r_flags(instr: Instruction, cpu: Cpu, bus: BusView)
    requires
        instr.execute == Handler::SubRR,
        instr.operands is RegReg,
        instr.operands->RegReg_0 != Reg8::F,
    ensures
        ({
            let a = cpu.registers.spec_get8(instr.operands->RegReg_0);
            let b = cpu.registers.spec_get8(instr.operands->RegReg_1);
            let after = exec_result(instr, cpu, bus).0.registers;
            let result = after.spec_get8(instr.operands->RegReg_0);
            &&& result as int == if a >= b { a - b } else { a - b + 256 }
            &&& after.spec_flag(FlagBits::Z) == (a == b)
            &&& after.spec_flag(FlagBits::N)
            &&& after.spec_flag(FlagBits::H) == (a % 16 < b % 16)
            &&& after.spec_flag(FlagBits::C) == (a < b)
            &&& after.pc as int == (cpu.registers.pc + instr.size) % 0x10000
            &&& exec_result(instr, cpu, bus).1 == bus
            &&& exec_result(instr, cpu, bus).2 == instr.cycles
        }),
{
    assert(exec_result(instr, cpu, bus) == sub_r_r_result(instr, cpu, bus));
    let dest = instr.operands->RegReg_0;
    let a = cpu.registers.spec_get8(dest);
    let b = cpu.registers.spec_get8(instr.operands->RegReg_1);
    let result = ((a - b + 256) % 256) as u8;
    let regs = cpu.registers;
    lemma_flags4_read(regs, result == 0, true, a % 16 < b % 16, a < b);
    let rf = Registers { f: flags4(regs.f, result == 0, true, a % 16 < b % 16, a < b), ..regs };
    let after = sub_r_r_result(instr, cpu, bus).0.registers;
    assert(after.f == rf.f);
}

/// `JR cc, e8` jumps by the signed byte after the opcode, counted from the
/// next instruction, exactly when its condition holds of F (Z: bit 7 set,
/// NZ: bit 7 clear, C: bit 4 set, NC: bit 4 clear), taking 12 T-cycles;
/// otherwise it falls through to the next instruction in 8. Memory is
/// unchanged.
#[verifier::spinoff_prover]
pub proof fn lemma_jr_cc(instr: Instruction, cpu: Cpu, bus: BusView)
    requires
        instr.execute == Handler::JrCcE8,
        operand_condition(instr.operands) is Some,
    ensures
        ({
            let f = cpu.registers.f;
            let pc = cpu.registers.pc;
            let taken = match operand_condition(instr.operands)->0 {
                Condition::Z => f & 0x80 != 0,
                Condition::NZ => f & 0x80 == 0,
                Condition::C => f & 0x10 != 0,
                Condition::NC => f & 0x10 == 0,
            };
            let off = bus.read((pc + 1) as u16);
            let disp: int = if off < 128 { off as int } else { off - 256 };
            let r = exec_result(instr, cpu, bus);
            &&& taken ==> r.0.registers.pc as int == (pc + instr.size + disp + 0x10000) % 0x10000 && r.2 == 12
            &&& !taken ==> r.0.registers.pc as int == (pc + instr.size) % 0x10000 && r.2 == 8
            &&& r.1 == bus
        }),
{
    assert(exec_result(instr, cpu, bus) == jr_cc_e8_result(instr, cpu, bus));
    let pc = cpu.registers.pc;
    let next = pc_plus(pc, instr.size as int);
    let off = bus.read((pc + 1) as u16);
    let disp = signed_byte(off);
    assert((next + disp) % 0x10000 == (pc + instr.size + disp + 0x10000) % 0x10000) by (nonlinear_arith)
        requires next == (pc + instr.size) % 0x10000, -128 <= disp < 128, 0 <= pc < 0x10000, 0 <= instr.size < 256;
}

} // verus!

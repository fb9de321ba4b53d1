use vstd::prelude::*;
use crate::registers::Registers;
use crate::bus::{Bus, BusView, lemma_interrupt_regs, lemma_iflag_keeps_access, lemma_write_keeps_writable_below, lemma_ram_write_read};
use crate::instructions::{Instruction, exec_ok, exec_result, execute, pc_plus, can_execute};

verus! {

/// The CPU: registers and interrupt and halt state.
#[derive(Debug, Clone, Copy, PartialEq, Eq, Structural)]
pub struct Cpu {
    pub registers: Registers,
    pub debug: bool,
    pub ime: bool,
    pub enable_ime_next: bool,
    pub halted: bool,
    pub halt_bug: bool,
    pub double_speed: bool,
    pub opcode: u8,
    pub cycles: u64,
}

impl Cpu {
    /// The CPU as the boot ROM leaves it: post-boot registers, interrupts
    /// disabled, running.
    pub open spec fn initial(debug: bool) -> Cpu {
        Cpu {
            registers: Registers::post_boot(),
            debug: debug,
            ime: false,
            enable_ime_next: false,
            halted: false,
            halt_bug: false,
            double_speed: false,
            opcode: 0,
            cycles: 0,
        }
    }

    pub fn new(debug: bool) -> (c: Self)
        ensures
            c == Cpu::initial(debug),
    {
        Self {
            registers: Registers::new(),
            ime: false,
            enable_ime_next: false,
            halted: false,
            halt_bug: false,
            double_speed: false,
            opcode: 0,
            cycles: 0,
            debug,
        }
    }
}

} // verus!

verus! {

/// The lowest of the interrupt bits `from`..4 set in `pending`.
pub open spec fn lowest_interrupt_from(pending: u8, from: u8) -> Option<u8>
    decreases 5 - from,
{
    if from >= 5 {
        None
    } else if pending & (1u8 << from) != 0 {
        Some(from)
    } else {
        lowest_interrupt_from(pending, (from + 1) as u8)
    }
}

/// The lowest of the five interrupt bits set in `pending`.
pub open spec fn lowest_interrupt(pending: u8) -> Option<u8> {
    lowest_interrupt_from(pending, 0)
}

/// The lowest of the five interrupt bits set in `pending`.
pub fn lowest_interrupt_exec(pending: u8) -> (r: Option<u8>)
    ensures
        r == lowest_interrupt(pending),
        r matches Some(i) ==> i < 5,
{
    let mut i: u8 = 0;
    while i < 5
        invariant
            i <= 5,
            lowest_interrupt_from(pending, i) == lowest_interrupt(pending),
        decreases 5 - i,
    {
        if pending & (1 << i) != 0 {
            return Some(i);
        }
        i += 1;
    }
    None
}

/// The handler address of interrupt `i` (V-blank, STAT, timer, serial, joypad).
pub open spec fn interrupt_vector(i: u8) -> u16 {
    (0x40 + 8 * i) as u16
}

/// The interrupt that is dispatched now, if any: IME must be set and the
/// interrupt enabled and requested.
pub open spec fn interrupt_to_serve(cpu: Cpu, bus: BusView) -> Option<u8> {
    if !cpu.ime {
        None
    } else {
        lowest_interrupt(bus.ie & bus.iflag)
    }
}

/// The stack pointer decremented by `n`, wrapping.
pub open spec fn sp_minus(sp: u16, n: int) -> u16 {
    ((sp - n + 0x10000) % 0x10000) as u16
}

/// The bus after pushing `value`: high byte at SP-1, then low byte at SP-2.
pub open spec fn push_bus(bus: BusView, sp: u16, value: u16) -> BusView {
    bus.write(sp_minus(sp, 1), (value / 256) as u8).write(sp_minus(sp, 2), (value % 256) as u8)
}

/// Whether pushing `value` is defined.
pub open spec fn push_ok(bus: BusView, sp: u16, value: u16) -> bool {
    &&& bus.writable(sp_minus(sp, 1), (value / 256) as u8)
    &&& bus.write(sp_minus(sp, 1), (value / 256) as u8).writable(sp_minus(sp, 2), (value % 256) as u8)
}

/// The bus after dispatching interrupt `i`: its request bit is cleared
/// and `PC` is pushed.
pub open spec fn interrupt_bus(cpu: Cpu, bus: BusView, i: u8) -> BusView {
    let cleared = bus.write(0xFF0F, bus.iflag & !(1u8 << i));
    push_bus(cleared, cpu.registers.sp, cpu.registers.pc)
}

/// The CPU after dispatching interrupt `i`: IME off, `PC` pushed, and
/// execution continues at the handler.
pub open spec fn interrupt_cpu(cpu: Cpu, i: u8) -> Cpu {
    Cpu {
        ime: false,
        registers: Registers {
            sp: sp_minus(cpu.registers.sp, 2),
            pc: interrupt_vector(i),
            ..cpu.registers
        },
        ..cpu
    }
}

pub open spec fn interrupt_ok(cpu: Cpu, bus: BusView) -> bool {
    match interrupt_to_serve(cpu, bus) {
        Some(i) => push_ok(
            bus.write(0xFF0F, bus.iflag & !(1u8 << i)),
            cpu.registers.sp,
            cpu.registers.pc,
        ),
        None => true,
    }
}

/// Whether one CPU step is defined: a dispatched interrupt can push `PC`;
/// otherwise, unless halted, the opcode at `PC` is readable, has an
/// implemented table entry, and that instruction can execute.
pub open spec fn step_ok(cpu: Cpu, bus: BusView, table: Seq<Option<Instruction>>) -> bool {
    &&& table.len() == 256
    &&& match interrupt_to_serve(cpu, bus) {
        Some(_) => interrupt_ok(cpu, bus),
        None => cpu.halted || {
            let pc = cpu.registers.pc;
            &&& bus.readable(pc)
            &&& table[bus.read(pc) as int] is Some
            &&& exec_ok(table[bus.read(pc) as int]->0, Cpu { halt_bug: false, ..cpu }, bus)
        },
    }
}

/// The CPU, the bus and the T-cycles taken by one step: an interrupt
/// dispatch (20 cycles), a halted cycle (4 cycles; any enabled request
/// wakes the CPU), or one instruction, after which the halt bug repeats
/// the instruction's address and a pending `EI` takes effect.
pub open spec fn step_result(cpu: Cpu, bus: BusView, table: Seq<Option<Instruction>>) -> (Cpu, BusView, u8) {
    match interrupt_to_serve(cpu, bus) {
        Some(i) => (interrupt_cpu(cpu, i), interrupt_bus(cpu, bus, i), 20),
        None => if cpu.halted {
            (Cpu { halted: bus.ie & bus.iflag == 0, ..cpu }, bus, 4)
        } else {
            let pc = cpu.registers.pc;
            let instr = table[bus.read(pc) as int]->0;
            let r = exec_result(instr, Cpu { halt_bug: false, ..cpu }, bus);
            let c1 = if cpu.halt_bug { Cpu { registers: Registers { pc: pc, ..r.0.registers }, ..r.0 } } else { r.0 };
            let c2 = if c1.enable_ime_next { Cpu { ime: true, enable_ime_next: false, ..c1 } } else { c1 };
            (c2, r.1, r.2)
        },
    }
}

impl Cpu {
    /// Reads the byte at `PC` and advances `PC`.
    pub fn fetch8(&mut self, bus: &mut Bus) -> (v: u8)
        requires
            old(bus)@.wf(),
            old(bus)@.readable(old(self).registers.pc),
        ensures
            v == old(bus)@.read(old(self).registers.pc),
            *final(self) == (Cpu {
                registers: Registers { pc: pc_plus(old(self).registers.pc, 1), ..old(self).registers },
                ..*old(self)
            }),
            final(bus)@ == old(bus)@,
    {
        let value = bus.read(self.registers.get_pc());
        self.registers.inc_pc_by(1);
        value
    }

    /// Reads the little-endian word at `PC` and advances `PC` by two.
    pub fn fetch16(&mut self, bus: &mut Bus) -> (v: u16)
        requires
            old(bus)@.wf(),
            old(bus)@.readable(old(self).registers.pc),
            old(bus)@.readable(pc_plus(old(self).registers.pc, 1)),
        ensures
            v as int == old(bus)@.read(pc_plus(old(self).registers.pc, 1)) as int * 256
                + old(bus)@.read(old(self).registers.pc) as int,
            *final(self) == (Cpu {
                registers: Registers { pc: pc_plus(old(self).registers.pc, 2), ..old(self).registers },
                ..*old(self)
            }),
            final(bus)@ == old(bus)@,
    {
        let lo = self.fetch8(bus) as u16;
        let hi = self.fetch8(bus) as u16;
        assert((hi << 8u16) | lo == hi * 256 + lo) by { crate::bits::lemma_u16_bits(); }
        (hi << 8) | lo
    }

    /// Pushes a word: high byte at SP-1, low byte at SP-2.
    pub fn push16(&mut self, bus: &mut Bus, value: u16)
        requires
            old(bus)@.wf(),
            push_ok(old(bus)@, old(self).registers.sp, value),
        ensures
            final(bus)@ == push_bus(old(bus)@, old(self).registers.sp, value),
            final(bus)@.wf(),
            *final(self) == (Cpu {
                registers: Registers { sp: sp_minus(old(self).registers.sp, 2), ..old(self).registers },
                ..*old(self)
            }),
    {
        let sp = self.registers.get_sp().wrapping_sub(1);
        self.registers.set_sp(sp);
        assert((value >> 8u16) as u8 == (value / 256) as u8) by { crate::bits::lemma_u16_bits(); }
        assert((value & 0xFF) as u8 == (value % 256) as u8) by { crate::bits::lemma_u16_bits(); }
        bus.write(sp, (value >> 8) as u8);

        let sp = sp.wrapping_sub(1);
        self.registers.set_sp(sp);
        bus.write(sp, (value & 0xFF) as u8);
    }

    /// Pops a word: low byte at SP, high byte at SP+1.
    pub fn pop16(&mut self, bus: &mut Bus) -> (v: u16)
        requires
            old(bus)@.wf(),
            old(bus)@.readable(old(self).registers.sp),
            old(bus)@.readable(pc_plus(old(self).registers.sp, 1)),
        ensures
            v as int == old(bus)@.read(pc_plus(old(self).registers.sp, 1)) as int * 256
                + old(bus)@.read(old(self).registers.sp) as int,
            *final(self) == (Cpu {
                registers: Registers { sp: pc_plus(old(self).registers.sp, 2), ..old(self).registers },
                ..*old(self)
            }),
            final(bus)@ == old(bus)@,
    {
        let sp = self.registers.get_sp();
        let lo = bus.read(sp);
        let hi = bus.read(sp.wrapping_add(1));
        self.registers.set_sp(sp.wrapping_add(2));
        let h = hi as u16;
        let l = lo as u16;
        assert((h << 8u16) | l == h * 256 + l) by { crate::bits::lemma_u16_bits(); }
        (hi as u16) << 8 | lo as u16
    }
}


impl Cpu {
    /// Dispatches the lowest-numbered interrupt that is both enabled and
    /// requested, if IME is set: clears its request bit, turns IME off,
    /// pushes `PC` and jumps to its vector. Returns whether it did.
    pub fn handle_interrupts(&mut self, bus: &mut Bus) -> (served: bool)
        requires
            old(bus)@.wf(),
            interrupt_ok(*old(self), old(bus)@),
        ensures
            final(bus)@.wf(),
            match interrupt_to_serve(*old(self), old(bus)@) {
                Some(i) => served && *final(self) == interrupt_cpu(*old(self), i)
                    && final(bus)@ == interrupt_bus(*old(self), old(bus)@, i),
                None => !served && *final(self) == *old(self) && final(bus)@ == old(bus)@,
            },
    {
        if !self.ime {
            return false;
        }
        proof { lemma_interrupt_regs(bus@, 0); }
        let ie = bus.read(0xFFFF);
        let iflag = bus.read(0xFF0F);
        let pending = ie & iflag;
        if pending == 0 {
            assert(lowest_interrupt_from(pending, 0) is None) by {
                assert(forall|k: u8| k < 5 ==> 0u8 & (1u8 << k) == 0) by (bit_vector);
                reveal_with_fuel(lowest_interrupt_from, 6);
            }
            return false;
        }
        let mut i: u8 = 0;
        while i < 5
            invariant
                i <= 5,
                pending == old(bus).ie & old(bus).iflag,
                iflag == old(bus).iflag,
                lowest_interrupt_from(pending, i) == lowest_interrupt(pending),
                *self == *old(self),
                bus@ == old(bus)@,
                self.ime,
                old(bus)@.wf(),
                interrupt_ok(*old(self), old(bus)@),
            decreases 5 - i,
        {
            if pending & (1 << i) != 0 {
                proof { lemma_interrupt_regs(bus@, iflag & !(1u8 << i)); }
                bus.write(0xFF0F, iflag & !(1 << i));
                self.ime = false;
                let pc = self.registers.get_pc();
                self.push16(bus, pc);
                let vector: u16 = 0x0040 + 8 * (i as u16);
                self.registers.set_pc(vector);
                return true;
            }
            i += 1;
        }
        false
    }
}


impl Cpu {
    /// Runs one step and returns the T-cycles it took: an interrupt
    /// dispatch, a halted cycle, or the instruction at `PC` from `table`.
    pub fn step(&mut self, bus: &mut Bus, table: &Vec<Option<Instruction>>) -> (cycles: u8)
        requires
            old(bus)@.wf(),
            step_ok(*old(self), old(bus)@, table@),
        ensures
            final(bus)@.wf(),
            (*final(self), final(bus)@, cycles) == step_result(*old(self), old(bus)@, table@),
    {
        if self.handle_interrupts(bus) {
            return 20;
        }

        if self.halted {
            let pending = bus.get_ie() & bus.get_iflag();
            if pending != 0 {
                self.halted = false;
            }
            return 4;
        }

        let apply_halt_bug = self.halt_bug;
        self.halt_bug = false;

        let pc_before = self.registers.get_pc();
        let opcode = bus.read(pc_before);
        let instr = match &table[opcode as usize] {
            Some(instr) => instr,
            None => {
                proof { assert(false); }
                return 0;
            },
        };

        let cycles = execute(instr, self, bus);

        if apply_halt_bug {
            self.registers.set_pc(pc_before);
        }

        if self.enable_ime_next {
            self.ime = true;
            self.enable_ime_next = false;
        }
        cycles
    }

    /// Whether `step` is defined in the current state (see `step_ok`).
    pub fn can_step(&self, bus: &Bus, table: &Vec<Option<Instruction>>) -> (r: bool)
        requires
            bus@.wf(),
        ensures
            r == step_ok(*self, bus@, table@),
    {
        if table.len() != 256 {
            return false;
        }
        proof { lemma_interrupt_regs(bus@, 0); }
        let pending = bus.get_ie() & bus.get_iflag();
        let first = lowest_interrupt_exec(pending);
        if self.ime && first.is_some() {
            let i = first.unwrap();
            let cleared = bus.get_iflag() & !(1u8 << i);
            proof { lemma_interrupt_regs(bus@, cleared); }
            let sp1 = self.registers.get_sp().wrapping_sub(1);
            let sp2 = sp1.wrapping_sub(1);
            let pc = self.registers.get_pc();
            assert((pc >> 8u16) as u8 == (pc / 256) as u8) by { crate::bits::lemma_u16_bits(); }
            assert((pc & 0xFF) as u8 == (pc % 256) as u8) by { crate::bits::lemma_u16_bits(); }
            let hi = (pc >> 8) as u8;
            let lo = (pc & 0xFF) as u8;
            let ghost b1 = BusView { iflag: cleared, ..bus@ };
            proof {
                lemma_iflag_keeps_access(bus@, cleared, sp1, hi);
                lemma_iflag_keeps_access(bus@, cleared, sp2, lo);
                if b1.writable(sp1, hi) {
                    lemma_write_keeps_writable_below(b1, sp1, hi, lo);
                }
            }
            return bus.can_write(sp1, hi) && bus.can_write(sp2, lo);
        }
        if self.halted {
            return true;
        }
        let pc = self.registers.get_pc();
        if !bus.can_read(pc) {
            return false;
        }
        let opcode = bus.read(pc);
        match &table[opcode as usize] {
            Some(instr) => can_execute(instr, &Cpu { halt_bug: false, ..*self }, bus),
            None => false,
        }
    }
}

/// Popping right after a push gives back the pushed word, and leaves the
/// stack pointer and every other register as they were before the push,
/// when the two stack bytes lie in work or high RAM: `push16` is defined
/// there, `pop16` is defined on what it leaves, and the two compose to the
/// identity on the CPU.
pub proof fn lemma_push_pop(cpu: Cpu, bus: BusView, value: u16)
    requires
        bus.wf(),
        (0xC002 <= cpu.registers.sp <= 0xE000) || (0xFF82 <= cpu.registers.sp <= 0xFFFF),
    ensures
        push_ok(bus, cpu.registers.sp, value),
        ({
            let sp = cpu.registers.sp;
            let pushed = Cpu { registers: Registers { sp: sp_minus(sp, 2), ..cpu.registers }, ..cpu };
            let after = push_bus(bus, sp, value);
            &&& after.wf()
            &&& after.readable(pushed.registers.sp)
            &&& after.readable(pc_plus(pushed.registers.sp, 1))
            &&& after.read(pc_plus(pushed.registers.sp, 1)) as int * 256 + after.read(pushed.registers.sp) as int == value
            &&& (Cpu { registers: Registers { sp: pc_plus(pushed.registers.sp, 2), ..pushed.registers }, ..pushed }) == cpu
        }),
{
    let sp = cpu.registers.sp;
    reveal(BusView::write);
    reveal(BusView::readable);
    let a1 = sp_minus(sp, 1);
    let a2 = sp_minus(sp, 2);
    let hi = (value / 256) as u8;
    let lo = (value % 256) as u8;
    assert(a1 == sp - 1 && a2 == sp - 2);
    lemma_ram_write_read(bus, a1, a1, hi);
    let b1 = bus.write(a1, hi);
    assert(b1.wf());
    lemma_ram_write_read(b1, a2, a1, lo);
    lemma_ram_write_read(b1, a2, a2, lo);
    assert(pc_plus(a2, 1) == a1);
}

/// Scanning upwards from `from`, the first set bit found is `i` when the
/// bits between are clear.
proof fn lemma_lowest_from(pending: u8, from: u8, i: u8)
    requires
        from <= i < 5,
        pending & (1u8 << i) != 0,
        forall|j: u8| from <= j < i ==> pending & (1u8 << j) == 0,
    ensures
        lowest_interrupt_from(pending, from) == Some(i),
    decreases i - from,
{
    if from < i {
        lemma_lowest_from(pending, (from + 1) as u8, i);
    }
}

/// With IME set, the enabled and requested interrupt with the lowest bit
/// (V-blank first, joypad last) is served: the step jumps to 0x40, 0x48,
/// 0x50, 0x58 or 0x60 for bits 0 to 4, clears IME, pushes PC (the stack
/// pointer moves down two) and takes 20 T-cycles.
pub proof fn lemma_interrupt_dispatch(cpu: Cpu, bus: BusView, table: Seq<Option<Instruction>>, i: u8)
    requires
        cpu.ime,
        i < 5,
        (bus.ie & bus.iflag) & (1u8 << i) != 0,
        forall|j: u8| j < i ==> (bus.ie & bus.iflag) & (1u8 << j) == 0,
    ensures
        step_result(cpu, bus, table).0.registers.pc
            == (if i == 0 { 0x40u16 } else if i == 1 { 0x48u16 } else if i == 2 { 0x50u16 } else if i == 3 { 0x58u16 } else { 0x60u16 }),
        !step_result(cpu, bus, table).0.ime,
        step_result(cpu, bus, table).0.registers.sp as int == (cpu.registers.sp + 0x10000 - 2) % 0x10000,
        step_result(cpu, bus, table).2 == 20,
{
    lemma_lowest_from(bus.ie & bus.iflag, 0, i);
}

/// With IME clear, or no enabled interrupt requested, no interrupt is
/// served, and a halted CPU spends 4 T-cycles and stays halted unless an
/// enabled interrupt is requested.
pub proof fn lemma_no_dispatch(cpu: Cpu, bus: BusView, table: Seq<Option<Instruction>>)
    requires
        !cpu.ime || forall|j: u8| j < 5 ==> (bus.ie & bus.iflag) & (1u8 << j) == 0,
    ensures
        interrupt_to_serve(cpu, bus) is None,
        cpu.halted ==> step_result(cpu, bus, table) == (Cpu { halted: bus.ie & bus.iflag == 0, ..cpu }, bus, 4u8),
{
    if cpu.ime {
        let p = bus.ie & bus.iflag;
        assert(lowest_interrupt_from(p, 5) is None);
        assert(lowest_interrupt_from(p, 4) is None);
        assert(lowest_interrupt_from(p, 3) is None);
        assert(lowest_interrupt_from(p, 2) is None);
        assert(lowest_interrupt_from(p, 1) is None);
        assert(lowest_interrupt_from(p, 0) is None);
    }
}

} // verus!

use vstd::prelude::*;
use crate::bus::{Bus, BusView, SavedBus};
use crate::bus_state::BusState;
use crate::cartridge::Cartridge;
use crate::cpu::{Cpu, step_ok, step_result};
use crate::instructions::Instruction;
use crate::ppu::{Ppu, PpuView, PpuRegs, PpuEvents};

verus! {

/// A copy of the PPU.
fn copy_ppu(p: &Ppu) -> (c: Ppu)
    ensures
        c@ == p@,
{
    let c = Ppu {
        frame_buffer: p.frame_buffer.clone(),
        ready: p.ready,
        dot_counter: p.dot_counter,
        mode: p.mode,
        bg_color_ids: p.bg_color_ids.clone(),
        just_enabled: p.just_enabled,
        was_on_last_step: p.was_on_last_step,
        regs: p.regs,
        vram: p.vram.clone(),
        oam: p.oam.clone(),
        stat_line: p.stat_line,
    };
    assert(c.frame_buffer@ =~= p.frame_buffer@);
    assert(c.bg_color_ids@ =~= p.bg_color_ids@);
    assert(c.vram@ =~= p.vram@);
    assert(c.oam@ =~= p.oam@);
    c
}

/// What a save state keeps: the CPU, the PPU and the saved part of the bus.
pub struct SaveState {
    pub cpu: Cpu,
    pub ppu: Ppu,
    pub bus_state: BusState,
}

impl SaveState {
    /// The PPU's buffers and the bus's memories have their sizes.
    pub open spec fn wf(&self) -> bool {
        self.ppu@.wf() && self.bus_state.wf()
    }

    /// A save state of the given CPU, PPU and bus.
    pub fn new(cpu: &Cpu, ppu: &Ppu, bus: &Bus) -> (s: Self)
        ensures
            s.cpu == *cpu,
            s.ppu@ == ppu@,
            s.bus_state@ == bus@.saved(),
    {
        Self { cpu: *cpu, ppu: copy_ppu(ppu), bus_state: bus.to_state() }
    }

    /// Whether the state's buffers have their sizes, so that it can be loaded.
    pub fn is_valid(&self) -> (ok: bool)
        ensures
            ok == self.wf(),
    {
        self.ppu.frame_buffer.len() == 160 * 144 && self.ppu.bg_color_ids.len() == 160
            && self.ppu.vram.len() == 0x2000 && self.ppu.oam.len() == 0xA0
            && self.bus_state.vram.len() == 0x2000 && self.bus_state.wram.len() == 0x2000
            && self.bus_state.hram.len() == 0x7F && self.bus_state.oam.len() == 0xA0
    }
}

/// Why a step stopped: the part that cannot run its step from the state
/// it was given.
#[derive(Debug, Clone, Copy, PartialEq, Eq, Structural)]
pub enum StepFault {
    Cpu,
    Timer,
    Ppu,
    Apu,
}

/// The emulated machine: CPU, bus (with cartridge, timer, APU and
/// joypad) and PPU.
pub struct Emulator {
    pub cpu: Cpu,
    pub bus: Bus,
    pub ppu: Ppu,
}

/// The state of the machine as values.
pub struct EmulatorView {
    pub cpu: Cpu,
    pub bus: BusView,
    pub ppu: PpuView,
}

impl View for Emulator {
    type V = EmulatorView;

    open spec fn view(&self) -> EmulatorView {
        EmulatorView { cpu: self.cpu, bus: self.bus@, ppu: self.ppu@ }
    }
}

/// The PPU as a step runs it: with the bus's LCD registers (LY stays the
/// PPU's own, as the CPU cannot write it), video memory and OAM.
pub open spec fn ppu_from_bus(p: PpuView, b: BusView) -> PpuView {
    PpuView {
        regs: PpuRegs {
            lcdc: b.lcdc,
            stat: b.stat,
            scy: b.scy,
            scx: b.scx,
            ly: p.regs.ly,
            lyc: b.lyc,
            bgp: b.bgp,
            obp0: b.opb0,
            obp1: b.opb1,
            wy: b.wy,
            wx: b.wx,
        },
        vram: b.vram,
        oam: b.oam,
        ..p
    }
}

/// The bus after a PPU step: LY and STAT (with its mode and coincidence
/// bits) as the PPU reports them, and the VBlank (bit 0) and STAT (bit 1)
/// interrupts requested when raised.
pub open spec fn bus_after_ppu(b: BusView, p: PpuView, ev: PpuEvents) -> BusView {
    let f1: u8 = if ev.vblank { b.iflag | 1 } else { b.iflag };
    let f2: u8 = if ev.stat { f1 | 2 } else { f1 };
    BusView { ly: p.regs.ly, stat: p.read_reg(0xFF41), iflag: f2, ..b }
}

impl EmulatorView {
    pub open spec fn wf(&self) -> bool {
        self.bus.wf() && self.ppu.wf()
    }

    /// The machine after one step, and the T-cycles it took: the CPU runs
    /// one step, then the timer, the PPU and the APU run for as many
    /// cycles. A part that cannot run from the state it is given stops the
    /// step there, with the parts before it run.
    pub open spec fn step(&self, table: Seq<Option<Instruction>>) -> (EmulatorView, Result<u8, StepFault>) {
        if !step_ok(self.cpu, self.bus, table) {
            (*self, Err(StepFault::Cpu))
        } else {
            let (cpu1, bus1, cycles) = step_result(self.cpu, self.bus, table);
            if !bus1.step_timer_ok(cycles) {
                (EmulatorView { cpu: cpu1, bus: bus1, ppu: self.ppu }, Err(StepFault::Timer))
            } else {
                let bus2 = bus1.step_timer(cycles);
                let p1 = ppu_from_bus(self.ppu, bus2);
                if !p1.step_ok(cycles) {
                    (EmulatorView { cpu: cpu1, bus: bus2, ppu: p1 }, Err(StepFault::Ppu))
                } else {
                    let (p2, ev) = p1.step(cycles);
                    let bus3 = bus_after_ppu(bus2, p2, ev);
                    if !bus3.apu.step_ok(cycles as u32) {
                        (EmulatorView { cpu: cpu1, bus: bus3, ppu: p2 }, Err(StepFault::Apu))
                    } else {
                        (EmulatorView {
                            cpu: cpu1,
                            bus: BusView { apu: bus3.apu.spec_step(cycles as u32), ..bus3 },
                            ppu: p2,
                        }, Ok(cycles))
                    }
                }
            }
        }
    }

    /// What a save state of the machine holds.
    pub open spec fn saved(&self) -> (Cpu, PpuView, SavedBus) {
        (self.cpu, self.ppu, self.bus.saved())
    }

    /// The machine with a save state loaded.
    pub open spec fn restore(&self, s: (Cpu, PpuView, SavedBus)) -> EmulatorView {
        EmulatorView { cpu: s.0, ppu: s.1, bus: self.bus.restore(s.2) }
    }
}

impl Emulator {
    /// The machine after the boot ROM, with the given cartridge inserted.
    pub fn new(cart: Cartridge, cgb: bool) -> (e: Self)
        ensures
            e@ == (EmulatorView {
                cpu: Cpu::initial(false),
                bus: BusView::initial(cart.header, cart.mapper@),
                ppu: PpuView::initial(),
            }),
            e@.wf(),
    {
        Emulator { cpu: Cpu::new(false), bus: Bus::new(cart), ppu: Ppu::new(cgb) }
    }

    /// Gives the PPU the bus's LCD registers, video memory and OAM.
    fn load_ppu_inputs(&mut self)
        requires
            old(self)@.wf(),
        ensures
            final(self)@ == (EmulatorView { ppu: ppu_from_bus(old(self)@.ppu, old(self)@.bus), ..old(self)@ }),
            final(self)@.wf(),
    {
        self.ppu.regs = PpuRegs {
            lcdc: self.bus.lcdc,
            stat: self.bus.stat,
            scy: self.bus.scy,
            scx: self.bus.scx,
            ly: self.ppu.regs.ly,
            lyc: self.bus.lyc,
            bgp: self.bus.bgp,
            obp0: self.bus.opb0,
            obp1: self.bus.opb1,
            wy: self.bus.wy,
            wx: self.bus.wx,
        };
        let vram = self.bus.vram.clone();
        let oam = self.bus.oam.clone();
        assert(vram@ =~= self.bus.vram@);
        assert(oam@ =~= self.bus.oam@);
        self.ppu.vram = vram;
        self.ppu.oam = oam;
    }

    /// Publishes the PPU's LY and STAT on the bus and requests the
    /// interrupts it raised.
    fn store_ppu_outputs(&mut self, events: PpuEvents)
        ensures
            final(self)@ == (EmulatorView { bus: bus_after_ppu(old(self)@.bus, old(self)@.ppu, events), ..old(self)@ }),
    {
        self.bus.ly = self.ppu.regs.ly;
        self.bus.stat = self.ppu.read_reg(0xFF41);
        assert(1u8 << 0u8 == 1u8) by { crate::bits::lemma_u8_bits(); }
        assert(1u8 << 1u8 == 2u8) by { crate::bits::lemma_u8_bits(); }
        if events.vblank {
            self.bus.request_interrupt(0);
        }
        if events.stat {
            self.bus.request_interrupt(1);
        }
    }

    /// Runs one step of the machine (see `EmulatorView::step`) and
    /// returns the T-cycles it took, or the part that could not run.
    pub fn step(&mut self, table: &Vec<Option<Instruction>>) -> (r: Result<u8, StepFault>)
        requires
            old(self)@.wf(),
        ensures
            (final(self)@, r) == old(self)@.step(table@),
            final(self)@.wf(),
    {
        if !self.cpu.can_step(&self.bus, table) {
            return Err(StepFault::Cpu);
        }
        let cycles = self.cpu.step(&mut self.bus, table);

        if !self.bus.can_step_timer(cycles) {
            return Err(StepFault::Timer);
        }
        self.bus.step_timer(cycles);

        self.load_ppu_inputs();
        if !self.ppu.can_step(cycles) {
            return Err(StepFault::Ppu);
        }
        let events = self.ppu.step(cycles);
        self.store_ppu_outputs(events);

        if !self.bus.apu.can_step(cycles as u32) {
            return Err(StepFault::Apu);
        }
        self.bus.apu.step(cycles as u32);
        Ok(cycles)
    }

    /// Whether the PPU finished a frame since the last call; clears the flag.
    pub fn take_frame(&mut self) -> (ready: bool)
        ensures
            ready == old(self).ppu.ready,
            final(self)@ == (EmulatorView { ppu: PpuView { ready: false, ..old(self)@.ppu }, ..old(self)@ }),
    {
        if self.ppu.ready {
            self.ppu.ready = false;
            true
        } else {
            false
        }
    }

    /// A save state of the machine.
    pub fn save_state(&self) -> (s: SaveState)
        ensures
            (s.cpu, s.ppu@, s.bus_state@) == self@.saved(),
    {
        SaveState::new(&self.cpu, &self.ppu, &self.bus)
    }

    /// Loads a save state.
    pub fn load_state(&mut self, state: SaveState)
        requires
            old(self)@.wf(),
            state.wf(),
        ensures
            final(self)@ == old(self)@.restore((state.cpu, state.ppu@, state.bus_state@)),
            final(self)@.wf(),
    {
        self.cpu = state.cpu;
        self.ppu = state.ppu;
        self.bus.load_state(state.bus_state);
    }
}

/// Loading a save state of the machine gives back the machine as it was
/// saved, and saving right after loading gives back the loaded state.
pub proof fn lemma_emulator_save_load(e: EmulatorView, other: EmulatorView)
    ensures
        e.restore(e.saved()) == e,
        other.restore(e.saved()).saved() == e.saved(),
{
    crate::bus::lemma_save_load_round_trip(e.bus, other.bus);
}

} // verus!

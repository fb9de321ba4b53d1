use gb_emu::cartridge::loader::cartridge_from_rom;
use gb_emu::gb::{Emulator, StepFault};
use gb_emu::instructions::{build_table, opcodes, raw_table_is_valid, Handler, Instruction, Operands, Reg8};
use gb_emu::ppu::PpuMode;
use gb_emu::objects::{OpcodeFile, RawFlags, RawOpcode, RawOperand};
use gb_emu::registers::FlagBits;

fn operand(name: &str, immediate: bool) -> RawOperand {
    RawOperand { name: name.to_string(), immediate, increment: false, decrement: false }
}

fn flags(z: &str, n: &str, h: &str, c: &str) -> RawFlags {
    RawFlags { z: z.to_string(), n: n.to_string(), h: h.to_string(), c: c.to_string() }
}

fn raw(mnemonic: &str, bytes: u8, cycles: u8, operands: Vec<RawOperand>, f: RawFlags) -> RawOpcode {
    RawOpcode { mnemonic: mnemonic.to_string(), bytes, cycles: vec![cycles], operands, immediate: true, flags: f }
}

fn small_file() -> OpcodeFile {
    let unprefixed = vec![
        ("0x00".to_string(), raw("NOP", 1, 4, vec![], flags("-", "-", "-", "-"))),
        ("0x3E".to_string(), raw("LD", 2, 8, vec![operand("A", true), operand("n8", true)], flags("-", "-", "-", "-"))),
        ("0x06".to_string(), raw("LD", 2, 8, vec![operand("B", true), operand("n8", true)], flags("-", "-", "-", "-"))),
        ("0x3C".to_string(), raw("INC", 1, 4, vec![operand("A", true)], flags("Z", "0", "H", "-"))),
        ("0x80".to_string(), raw("ADD", 1, 4, vec![operand("A", true), operand("B", true)], flags("Z", "0", "H", "C"))),
        ("0x90".to_string(), raw("SUB", 1, 4, vec![operand("A", true), operand("B", true)], flags("Z", "1", "H", "C"))),
        ("0xC3".to_string(), raw("JP", 3, 16, vec![operand("a16", true)], flags("-", "-", "-", "-"))),
    ];
    OpcodeFile { unprefixed, cbprefixed: vec![] }
}

fn rom_with_program(program: &[u8]) -> Vec<u8> {
    let mut rom = vec![0u8; 0x8000];
    rom[0x134..0x138].copy_from_slice(b"TEST");
    rom[0x147] = 0x00;
    rom[0x100..0x100 + program.len()].copy_from_slice(program);
    rom
}

fn table() -> Vec<Option<Instruction>> {
    let file = small_file();
    assert!(raw_table_is_valid(&file.unprefixed));
    opcodes(&file)
}

#[test]
fn table_is_built_from_the_description() {
    let t = table();
    assert_eq!(t.len(), 256);
    let ld = t[0x3E].as_ref().unwrap();
    assert_eq!(ld.opcode, 0x3E);
    assert_eq!(ld.name, "LD");
    assert_eq!(ld.cycles, 8);
    assert_eq!(ld.size, 2);
    assert_eq!(ld.execute, Handler::LdRN8);
    assert_eq!(ld.operands, Operands::RegImm8(Reg8::A));
    let inc = t[0x3C].as_ref().unwrap();
    assert_eq!(inc.flags, vec![FlagBits::Z, FlagBits::N, FlagBits::H]);
    assert!(t[0x01].is_none());
}

#[test]
fn later_table_entry_wins() {
    let mut file = small_file();
    file.unprefixed.push(("0x00".to_string(), raw("NOP", 1, 8, vec![], flags("-", "-", "-", "-"))));
    let t = build_table(&file.unprefixed, false);
    assert_eq!(t[0x00].as_ref().unwrap().cycles, 8);
}

#[test]
fn invalid_table_key_is_rejected() {
    let mut file = small_file();
    file.unprefixed.push(("0xZZ".to_string(), raw("NOP", 1, 4, vec![], flags("-", "-", "-", "-"))));
    assert!(!raw_table_is_valid(&file.unprefixed));
}

#[test]
fn runs_a_small_program() {
    // LD A,0x0F; INC A; LD B,0x05; ADD A,B; SUB A,B; JP 0x0100
    let rom = rom_with_program(&[0x3E, 0x0F, 0x3C, 0x06, 0x05, 0x80, 0x90, 0xC3, 0x00, 0x01]);
    let cart = cartridge_from_rom(rom).unwrap();
    let mut emu = Emulator::new(cart, false);
    let t = table();

    assert_eq!(emu.step(&t), Ok(8));
    assert_eq!(emu.cpu.registers.get_a(), 0x0F);
    assert_eq!(emu.cpu.registers.get_pc(), 0x0102);

    assert_eq!(emu.step(&t), Ok(4));
    assert_eq!(emu.cpu.registers.get_a(), 0x10);
    assert!(emu.cpu.registers.get_flag(FlagBits::H));
    assert!(!emu.cpu.registers.get_flag(FlagBits::Z));

    assert_eq!(emu.step(&t), Ok(8));
    assert_eq!(emu.cpu.registers.get_b(), 0x05);

    assert_eq!(emu.step(&t), Ok(4));
    assert_eq!(emu.cpu.registers.get_a(), 0x15);
    assert!(!emu.cpu.registers.get_flag(FlagBits::C));

    assert_eq!(emu.step(&t), Ok(4));
    assert_eq!(emu.cpu.registers.get_a(), 0x10);
    assert!(emu.cpu.registers.get_flag(FlagBits::N));

    // JP reports its length in bytes as its cycle count.
    assert_eq!(emu.step(&t), Ok(3));
    assert_eq!(emu.cpu.registers.get_pc(), 0x0100);
}

#[test]
fn unknown_opcode_stops_the_step() {
    let rom = rom_with_program(&[0x01]);
    let cart = cartridge_from_rom(rom).unwrap();
    let mut emu = Emulator::new(cart, false);
    let t = table();
    let pc = emu.cpu.registers.get_pc();
    assert_eq!(emu.step(&t), Err(StepFault::Cpu));
    assert_eq!(emu.cpu.registers.get_pc(), pc);
}

#[test]
fn ppu_time_advances_with_cpu_cycles() {
    let rom = rom_with_program(&[0x00; 128]);
    let cart = cartridge_from_rom(rom).unwrap();
    let mut emu = Emulator::new(cart, false);
    let t = table();
    // With the LCD off the PPU rests in HBlank on line 0; DIV counts every cycle.
    for _ in 0..10 {
        assert_eq!(emu.step(&t), Ok(4));
    }
    assert_eq!(emu.bus.div, 40);
    assert_eq!(emu.ppu.mode, PpuMode::HBlank);
    assert_eq!(emu.ppu.regs.ly, 0);
    // Switched on, the first 80 dots end in drawing mode.
    emu.bus.lcdc = 0x80;
    for _ in 0..20 {
        assert_eq!(emu.step(&t), Ok(4));
    }
    assert_eq!(emu.ppu.mode, PpuMode::Drawing);
    assert_eq!(emu.ppu.dot_counter, 0);
    // 172 more dots end the line's drawing; STAT on the bus reports HBlank.
    for _ in 0..43 {
        assert_eq!(emu.step(&t), Ok(4));
    }
    assert_eq!(emu.ppu.mode, PpuMode::HBlank);
    assert_eq!(emu.bus.stat & 0x03, 0);
    // 204 more dots start line 1 with an OAM scan.
    for _ in 0..51 {
        assert_eq!(emu.step(&t), Ok(4));
    }
    assert_eq!(emu.ppu.regs.ly, 1);
    assert_eq!(emu.bus.ly, 1);
    assert_eq!(emu.ppu.mode, PpuMode::OamScan);
    assert_eq!(emu.bus.stat & 0x03, 2);
}

#[test]
fn save_state_round_trip() {
    let rom = rom_with_program(&[0x3E, 0x42, 0x00, 0x00]);
    let cart = cartridge_from_rom(rom).unwrap();
    let mut emu = Emulator::new(cart, false);
    let t = table();
    let saved = emu.save_state();
    assert!(saved.is_valid());
    emu.step(&t).unwrap();
    assert_eq!(emu.cpu.registers.get_a(), 0x42);
    emu.bus.wram[3] = 0x99;
    emu.load_state(saved);
    assert_eq!(emu.cpu.registers.get_a(), 0x01);
    assert_eq!(emu.cpu.registers.get_pc(), 0x0100);
    assert_eq!(emu.bus.wram[3], 0x00);
}

#[test]
fn take_frame_clears_the_ready_flag() {
    let rom = rom_with_program(&[0x00]);
    let cart = cartridge_from_rom(rom).unwrap();
    let mut emu = Emulator::new(cart, false);
    assert!(!emu.take_frame());
    emu.ppu.ready = true;
    assert!(emu.take_frame());
    assert!(!emu.ppu.ready);
}

#[test]
fn timer_overflow_stops_the_step() {
    let rom = rom_with_program(&[0x00; 8]);
    let cart = cartridge_from_rom(rom).unwrap();
    let mut emu = Emulator::new(cart, false);
    let t = table();
    emu.bus.tac = 0x04;
    emu.bus.timer_acc = 0xFFFE;
    assert_eq!(emu.step(&t), Err(StepFault::Timer));
    // The CPU step already ran.
    assert_eq!(emu.cpu.registers.get_pc(), 0x0101);
}

#[test]
fn ppu_past_line_255_stops_the_step() {
    let rom = rom_with_program(&[0x00; 8]);
    let cart = cartridge_from_rom(rom).unwrap();
    let mut emu = Emulator::new(cart, false);
    let t = table();
    emu.bus.lcdc = 0x80;
    emu.ppu.was_on_last_step = true;
    emu.ppu.mode = PpuMode::VBlank;
    emu.ppu.regs.ly = 255;
    emu.ppu.dot_counter = 456;
    assert_eq!(emu.step(&t), Err(StepFault::Ppu));
}

#[test]
fn apu_sequencer_out_of_range_stops_the_step() {
    let rom = rom_with_program(&[0x00; 8]);
    let cart = cartridge_from_rom(rom).unwrap();
    let mut emu = Emulator::new(cart, false);
    let t = table();
    emu.bus.apu.frame_seq_step = 255;
    emu.bus.apu.div_apu = 8190;
    assert_eq!(emu.step(&t), Err(StepFault::Apu));
}

#[test]
fn vblank_interrupt_is_requested_on_the_bus() {
    let rom = rom_with_program(&[0x00; 8]);
    let cart = cartridge_from_rom(rom).unwrap();
    let mut emu = Emulator::new(cart, false);
    let t = table();
    emu.bus.lcdc = 0x80;
    emu.bus.iflag = 0x00;
    emu.ppu.was_on_last_step = true;
    emu.ppu.mode = PpuMode::HBlank;
    emu.ppu.regs.ly = 143;
    emu.ppu.dot_counter = 200;
    assert_eq!(emu.step(&t), Ok(4));
    assert_eq!(emu.bus.ly, 144);
    assert_eq!(emu.bus.iflag & 0x01, 0x01);
    assert_eq!(emu.bus.stat & 0x03, 1);
    assert!(emu.take_frame());
}

#[test]
fn interrupt_dispatch_pushes_pc_and_jumps_to_vector() {
    let rom = rom_with_program(&[0x00; 8]);
    let cart = cartridge_from_rom(rom).unwrap();
    let mut emu = Emulator::new(cart, false);
    let t = table();
    emu.cpu.ime = true;
    emu.bus.ie = 0x05;
    emu.bus.iflag = 0x0C;
    assert_eq!(emu.step(&t), Ok(20));
    assert_eq!(emu.cpu.registers.get_pc(), 0x0050);
    assert_eq!(emu.cpu.registers.get_sp(), 0xFFFC);
    assert_eq!(emu.bus.read(0xFFFC), 0x00);
    assert_eq!(emu.bus.read(0xFFFD), 0x01);
    assert_eq!(emu.bus.iflag & 0x04, 0);
    assert_eq!(emu.bus.iflag & 0x08, 0x08);
    assert!(!emu.cpu.ime);
}

#[test]
fn halted_cpu_waits_until_an_enabled_request() {
    let rom = rom_with_program(&[0x00; 8]);
    let cart = cartridge_from_rom(rom).unwrap();
    let mut emu = Emulator::new(cart, false);
    let t = table();
    emu.cpu.halted = true;
    emu.bus.ie = 0x01;
    emu.bus.iflag = 0x00;
    assert_eq!(emu.step(&t), Ok(4));
    assert!(emu.cpu.halted);
    assert_eq!(emu.cpu.registers.get_pc(), 0x0100);
    emu.bus.iflag = 0x01;
    assert_eq!(emu.step(&t), Ok(4));
    assert!(!emu.cpu.halted);
}

#[test]
fn save_state_keeps_lyc() {
    let rom = rom_with_program(&[0x00; 8]);
    let cart = cartridge_from_rom(rom).unwrap();
    let mut emu = Emulator::new(cart, false);
    let t = table();
    emu.bus.write(0xFF45, 0x30);
    let saved = emu.save_state();
    emu.bus.write(0xFF45, 0x00);
    emu.load_state(saved);
    emu.step(&t).unwrap();
    assert_eq!(emu.bus.read(0xFF45), 0x30);
    assert_eq!(emu.ppu.regs.lyc, 0x30);
}

#[test]
fn sub_below_zero_wraps_and_sets_carry() {
    // LD A,0x03; LD B,0x05; SUB A,B
    let rom = rom_with_program(&[0x3E, 0x03, 0x06, 0x05, 0x90]);
    let cart = cartridge_from_rom(rom).unwrap();
    let mut emu = Emulator::new(cart, false);
    let t = table();
    emu.step(&t).unwrap();
    emu.step(&t).unwrap();
    assert_eq!(emu.step(&t), Ok(4));
    assert_eq!(emu.cpu.registers.get_a(), 0xFE);
    assert!(emu.cpu.registers.get_flag(FlagBits::C));
    assert!(emu.cpu.registers.get_flag(FlagBits::N));
    assert!(!emu.cpu.registers.get_flag(FlagBits::Z));
    assert!(emu.cpu.registers.get_flag(FlagBits::H));
}

#[test]
fn push_then_pop_gives_the_word_back() {
    let rom = rom_with_program(&[0x00]);
    let cart = cartridge_from_rom(rom).unwrap();
    let mut emu = Emulator::new(cart, false);
    for sp in [0xE000u16, 0xC002, 0xFFFF, 0xFF82] {
        emu.cpu.registers.set_sp(sp);
        let before = emu.cpu.registers;
        emu.cpu.push16(&mut emu.bus, 0xBEEF);
        assert_eq!(emu.cpu.registers.get_sp(), sp - 2);
        assert_eq!(emu.cpu.pop16(&mut emu.bus), 0xBEEF);
        assert_eq!(emu.cpu.registers, before);
    }
}

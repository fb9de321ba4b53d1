# gb_emu

A Game Boy emulator whose core is written in Verus: every function of the
library states its behaviour in `requires`/`ensures` over mathematical
views of the machine, and Verus proves it.

## Layout

- `src/` — the verified library
  - `registers.rs`, `instructions.rs`, `cpu.rs`: register file, opcode
    table built from its JSON description, instruction handlers, interrupt
    dispatch and the CPU step
  - `bus.rs`, `bus_state.rs`, `timer.rs`: memory map, I/O registers, OAM DMA,
    joypad register, timer, save state of the bus
  - `cartridge/`: header, ROM-only, MBC1, MBC2 and MBC3 controllers, loader
  - `ppu.rs`: LCD registers, background, window and sprite rendering, the
    mode/line state machine and its interrupts
  - `apu.rs`: pulse and noise channels, frame sequencer
  - `gb.rs`: the whole machine (`Emulator`), one step of it, save states
  - `input.rs`: keyboard and gamepad mapping, input scripts and recordings,
    speed control, the end-of-frame decisions
  - `args.rs`: command-line options
  - `plugin.rs`: the checks of the cartridge plugin ABI
  - `bits.rs`, `text.rs`: bit-level facts and string helpers
- `tests/` — tests run against the compiled library
- `app/` — the program: window (minifb), gamepad (gilrs), audio (cpal,
  ringbuf), file dialog (rfd), save-state files (serde, postcard), opcode
  JSON (serde_json) and cartridge plugins (wasmtime)

The opcode table is read at start-up from `Opcodes.json` in the working
directory.

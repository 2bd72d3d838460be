# rgba

A Game Boy Advance emulator core whose behaviour is specified and proved with Verus.

## Layout

- `src/` — the verified library.
  - `constants.rs`, `types.rs`: hardware constants, CPU modes, the PSR, the banked
    register file, buttons, memory watches.
  - `bus.rs`, `io.rs`: the memory map (BIOS, EWRAM, IWRAM, I/O, palette, VRAM, OAM, ROM,
    SRAM) with mirroring and wait states, and the I/O registers with their side effects
    (interrupt flags, DISPSTAT, WAITCNT).
  - `arm.rs`, `alu.rs`, `exec_arm.rs`, `thumb.rs`, `cpu.rs`: the ARM7TDMI — decoding,
    flags, barrel shifter and the execution of every ARM and THUMB instruction class,
    each specified as a function from registers and bus to registers, bus and cycles.
  - `scheduler.rs`, `timer.rs`, `dma.rs`: the event scheduler, the four timers with
    prescalers and cascading, and the four DMA channels.
  - `ppu.rs`, `render.rs`: scanline timing and the renderer for bitmap, text and affine
    backgrounds, sprites and brightness effects, specified pixel by pixel.
  - `apu.rs`: sound channel state and the Direct Sound FIFO.
  - `cartridge.rs`: header parsing, backup detection and the flash chip's command state
    machine.
  - `gba.rs`: the whole machine — stepping, frame pacing, input, memory inspection.
- `tests/` — tests of the library.
- `app/` — the frontend: command line, file loading, audio output in floating point,
  speed control, savestates (serde) and the C interface for WebAssembly hosts.

Each specification is stated over mathematical views (`Seq`, `int`, spec functions);
the laws that relate several operations are public proof functions next to them.

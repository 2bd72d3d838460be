use vstd::prelude::*;

pub mod bits;
pub mod constants;
pub mod types;
pub mod bus;
pub mod io;
pub mod scheduler;
pub mod timer;
pub mod dma;
pub mod arm;
pub mod alu;
pub mod cpu;
pub mod exec_arm;
pub mod thumb;
pub mod cartridge;
pub mod ppu;
pub mod render;
pub mod apu;
pub mod gba;

verus! {

} // verus!

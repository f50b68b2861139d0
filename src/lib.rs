//! Core of an 8-bit handheld console: instruction engine, scanline renderer
//! and the address bus that couples them.
pub mod cpu;
pub mod debug_view;
pub mod memory;
pub mod ppu;
pub mod timing;

pub use cpu::Cpu;
pub use debug_view::render_vram_debug_view;
pub use memory::{LoadError, Memory, MemoryView};
pub use ppu::{Ppu, PpuView, SCREEN_HEIGHT, SCREEN_WIDTH};

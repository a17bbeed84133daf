//! Core of a retro-console hardware emulator: a byte-addressable memory
//! store, the loaders that populate it from program images, and the
//! processor shell that owns it.

pub mod cpu;
pub mod memory;

//! A small fictional register machine: a 32-bit instruction word is decoded
//! and executed against a byte register file and a bounded byte-addressable
//! memory, one instruction per clock step.

pub mod emulator;
pub mod program_loader;

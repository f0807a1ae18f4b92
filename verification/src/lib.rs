//! A verified CHIP-8 virtual CPU core: instruction decoding, the
//! fetch-decode-execute cycle, memory, display and keypad state, and the
//! two countdown timers.

use vstd::prelude::*;

pub mod cpu;
pub mod decode;
pub mod error;
pub mod instr;
pub mod system;

verus! {

} // verus!

//! A virtual machine for an 8-bit instruction set with 4 KiB of memory,
//! sixteen registers, two countdown timers and a 64 x 32 monochrome screen.
use vstd::prelude::*;

pub mod alu;
pub mod decode;
pub mod display;
pub mod keypad;
pub mod laws;
pub mod machine;

verus! {

} // verus!

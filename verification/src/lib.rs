//! A CHIP-8 virtual machine: a 4096-byte memory, sixteen 8-bit registers, a
//! call stack, two countdown timers, a 16-key keypad and a 64x32 monochrome
//! display, advanced one instruction at a time.
//!
//! Every public operation carries a contract that pins down, bit for bit, the
//! machine state it produces: the decode table, the arithmetic and flag
//! quirks, sprite collision and wraparound, and the wait-for-key state.

mod error;
mod vm;

pub use error::Error;
pub use vm::{Opcode, Vm, VmError, VmState, DISPLAY_HEIGHT, DISPLAY_LEN, DISPLAY_WIDTH};

use vstd::prelude::*;

verus! {

/// Builds a machine from a program image, rejecting images that do not fit
/// in the 3584 bytes of memory above the 0x200 load address.
pub fn load_rom<R: Fn() -> u8>(rom: &[u8], randomize: R) -> (r: Result<Vm<R>, Error>)
    requires
        call_requires(randomize, ()),
    ensures
        rom@.len() > 3584 ==> (r matches Err(e) && e == Error::InvalidRom),
        rom@.len() <= 3584 ==> (r matches Ok(v) && v.wf() && v@ == vm::state::init_state(rom@)),
{
    if rom.len() > 4096 - 0x200 {
        return Err(Error::InvalidRom);
    }
    Ok(Vm::new(rom, randomize))
}

} // verus!

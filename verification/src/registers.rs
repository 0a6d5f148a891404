use vstd::prelude::*;

verus! {

/// The CPU's mutable state: sixteen general-purpose registers (V[0xF] doubles
/// as the carry/borrow/shift-out/collision flag), the index register I, the
/// program counter, the call stack with its depth SP, and the two countdown
/// timers. SP never exceeds 16; the program counter starts at 0x200.
pub struct Registers {
    pub v: [u8; 16],
    pub stack: [u16; 16],
    pub i: u16,
    pub pc: u16,
    pub sp: u8,
    pub delay_timer: u8,
    pub sound_timer: u8,
}

impl Registers {
    /// Power-on state: all registers and timers cleared, an empty call stack,
    /// and execution starting at 0x200, where the ROM is loaded.
    pub fn new() -> (r: Registers)
        ensures
            forall|k: int| 0 <= k < 16 ==> r.v@[k] == 0,
            forall|k: int| 0 <= k < 16 ==> r.stack@[k] == 0,
            r.i == 0,
            r.pc == 0x200,
            r.sp == 0,
            r.delay_timer == 0,
            r.sound_timer == 0,
    {
        Registers {
            v: [0; 16],
            stack: [0; 16],
            i: 0,
            pc: 0x200,
            sp: 0,
            delay_timer: 0,
            sound_timer: 0,
        }
    }
}

} // verus!

use crate::display::{draw_erases, draw_result, Display};
use crate::instruction::{decode, decode_spec, instr_wf, Instruction};
use crate::keyboard::{lowest_pressed, Keyboard};
use crate::memory::{BlockMemory, Memory};
use crate::opcode::Opcode;
use vstd::prelude::*;

verus! {

/// A control signal for the audio device. The engine decides when sound
/// starts and stops; performing it on a real device happens outside.
#[derive(Copy, Clone, PartialEq, Eq, Structural, Debug)]
pub enum AudioCommand {
    Resume,
    Pause,
}

/// The two fatal conditions a cycle can hit. Neither is recoverable: the
/// caller is expected to halt, surfacing the offending opcode on a decode
/// failure.
#[derive(Copy, Clone, PartialEq, Eq, Structural, Debug)]
pub enum CpuError {
    /// The fetched opcode matches no known instruction pattern.
    UnknownOpcode(u16),
    /// The stack would overflow or underflow, or a memory or key index would
    /// leave its range. Such indices are never silently wrapped.
    ResourceExhausted,
}

/// The whole engine state as the specifications see it: the register file,
/// the memory image, the display bitmap and the keypad.
#[verifier::ext_equal]
pub struct CpuState {
    pub v: Seq<u8>,
    pub stack: Seq<u16>,
    pub i: u16,
    pub pc: u16,
    pub sp: u8,
    pub delay_timer: u8,
    pub sound_timer: u8,
    pub mem: Seq<u8>,
    pub pixels: Seq<bool>,
    pub keys: Seq<bool>,
    pub key_pending: bool,
}

/// The structural invariant of the engine state: sixteen registers, sixteen
/// stack slots with at most sixteen in use, 4096 bytes of memory, a 64x32
/// bitmap and sixteen keys.
pub open spec fn state_wf(s: CpuState) -> bool {
    &&& s.v.len() == 16
    &&& s.stack.len() == 16
    &&& s.sp <= 16
    &&& s.mem.len() == 4096
    &&& s.pixels.len() == 2048
    &&& s.keys.len() == 16
}

/// The opcode at `pc`: big-endian, the high byte first.
pub open spec fn fetch_spec(mem: Seq<u8>, pc: u16) -> u16 {
    ((mem[pc as int] as u16) << 8) | (mem[pc as int + 1] as u16)
}

/// Whether executing `instr` in state `s` would exhaust a resource: a return
/// with an empty stack or a return address at the top of the address space,
/// a call at full stack depth, a memory access beyond 4096 bytes, or a key
/// index above 15.
pub open spec fn instr_fault(s: CpuState, instr: Instruction) -> bool {
    match instr {
        Instruction::Ret => s.sp == 0 || s.stack[s.sp - 1] + 2 > 0xFFFF,
        Instruction::Call { nnn } => s.sp >= 16,
        Instruction::Drw { x, y, n } => s.i + n > 4096,
        Instruction::SkpX { x } => s.v[x as int] >= 16,
        Instruction::SknpX { x } => s.v[x as int] >= 16,
        Instruction::LdBcd { x } => s.i + 2 >= 4096,
        Instruction::LdIX { x } => s.i + x >= 4096,
        Instruction::LdXI { x } => s.i + x >= 4096,
        _ => false,
    }
}

/// The audio signal an instruction emits: writing the sound timer starts
/// audio when the value is positive and stops it otherwise; no other
/// instruction touches audio.
pub open spec fn instr_audio(s: CpuState, instr: Instruction) -> Option<AudioCommand> {
    match instr {
        Instruction::LdStX { x } => if s.v[x as int] > 0 {
            Some(AudioCommand::Resume)
        } else {
            Some(AudioCommand::Pause)
        },
        _ => None,
    }
}

/// The engine state after executing one instruction in state `s`. `rand` is
/// the byte the random-number source produced, read only by the RND
/// instruction. Every handler ends by advancing the PC by two — skips by
/// four when their condition holds — except the jumps, which set it
/// outright, and the key wait, which leaves it unchanged until a press is
/// pending.
pub open spec fn instr_step(s: CpuState, instr: Instruction, rand: u8) -> CpuState
    recommends
        state_wf(s),
        instr_wf(instr),
        !instr_fault(s, instr),
        s.pc + 4 <= 0xFFFF,
{
    match instr {
        Instruction::Cls => CpuState {
            pixels: Seq::new(2048, |k: int| false),
            pc: (s.pc + 2) as u16,
            ..s
        },
        Instruction::Ret => CpuState {
            sp: (s.sp - 1) as u8,
            pc: (s.stack[s.sp - 1] + 2) as u16,
            ..s
        },
        Instruction::Jp { nnn } => CpuState { pc: nnn, ..s },
        Instruction::Call { nnn } => CpuState {
            stack: s.stack.update(s.sp as int, s.pc),
            sp: (s.sp + 1) as u8,
            pc: nnn,
            ..s
        },
        Instruction::SeXkk { x, kk } => CpuState {
            pc: if s.v[x as int] == kk {
                (s.pc + 4) as u16
            } else {
                (s.pc + 2) as u16
            },
            ..s
        },
        Instruction::SneXkk { x, kk } => CpuState {
            pc: if s.v[x as int] != kk {
                (s.pc + 4) as u16
            } else {
                (s.pc + 2) as u16
            },
            ..s
        },
        Instruction::SeXy { x, y } => CpuState {
            pc: if s.v[x as int] == s.v[y as int] {
                (s.pc + 4) as u16
            } else {
                (s.pc + 2) as u16
            },
            ..s
        },
        Instruction::LdXkk { x, kk } => CpuState {
            v: s.v.update(x as int, kk),
            pc: (s.pc + 2) as u16,
            ..s
        },
        Instruction::AddXkk { x, kk } => CpuState {
            v: s.v.update(x as int, ((s.v[x as int] + kk) % 256) as u8),
            pc: (s.pc + 2) as u16,
            ..s
        },
        Instruction::LdXy { x, y } => CpuState {
            v: s.v.update(x as int, s.v[y as int]),
            pc: (s.pc + 2) as u16,
            ..s
        },
        Instruction::OrXy { x, y } => CpuState {
            v: s.v.update(x as int, s.v[x as int] | s.v[y as int]),
            pc: (s.pc + 2) as u16,
            ..s
        },
        Instruction::AndXy { x, y } => CpuState {
            v: s.v.update(x as int, s.v[x as int] & s.v[y as int]),
            pc: (s.pc + 2) as u16,
            ..s
        },
        Instruction::XorXy { x, y } => CpuState {
            v: s.v.update(x as int, s.v[x as int] ^ s.v[y as int]),
            pc: (s.pc + 2) as u16,
            ..s
        },
        Instruction::AddXy { x, y } => {
            let sum = s.v[x as int] + s.v[y as int];
            CpuState {
                v: s.v.update(15, if sum > 255 { 1u8 } else { 0u8 }).update(
                    x as int,
                    (sum % 256) as u8,
                ),
                pc: (s.pc + 2) as u16,
                ..s
            }
        },
        Instruction::SubXy { x, y } => {
            let vx = s.v[x as int];
            let vy = s.v[y as int];
            CpuState {
                v: s.v.update(15, if vx >= vy { 1u8 } else { 0u8 }).update(
                    x as int,
                    ((vx - vy) % 256) as u8,
                ),
                pc: (s.pc + 2) as u16,
                ..s
            }
        },
        Instruction::ShrX { x } => {
            let vx = s.v[x as int];
            CpuState {
                v: s.v.update(15, vx & 1).update(x as int, vx >> 1),
                pc: (s.pc + 2) as u16,
                ..s
            }
        },
        Instruction::SubnXy { x, y } => {
            let vx = s.v[x as int];
            let vy = s.v[y as int];
            CpuState {
                v: s.v.update(15, if vy >= vx { 1u8 } else { 0u8 }).update(
                    x as int,
                    ((vy - vx) % 256) as u8,
                ),
                pc: (s.pc + 2) as u16,
                ..s
            }
        },
        Instruction::ShlX { x } => {
            let vx = s.v[x as int];
            CpuState {
                v: s.v.update(15, if vx & 0x80 != 0 { 1u8 } else { 0u8 }).update(
                    x as int,
                    ((vx * 2) % 256) as u8,
                ),
                pc: (s.pc + 2) as u16,
                ..s
            }
        },
        Instruction::SneXy { x, y } => CpuState {
            pc: if s.v[x as int] != s.v[y as int] {
                (s.pc + 4) as u16
            } else {
                (s.pc + 2) as u16
            },
            ..s
        },
        Instruction::LdINnn { nnn } => CpuState { i: nnn, pc: (s.pc + 2) as u16, ..s },
        Instruction::Jp2 { nnn } => CpuState { pc: (s.v[0] + nnn) as u16, ..s },
        Instruction::RndXkk { x, kk } => CpuState {
            v: s.v.update(x as int, rand & kk),
            pc: (s.pc + 2) as u16,
            ..s
        },
        Instruction::Drw { x, y, n } => {
            let sprite = s.mem.subrange(s.i as int, s.i + n);
            let erased = draw_erases(s.pixels, s.v[x as int] as int, s.v[y as int] as int, sprite);
            CpuState {
                pixels: draw_result(s.pixels, s.v[x as int] as int, s.v[y as int] as int, sprite),
                v: s.v.update(15, if erased { 1u8 } else { 0u8 }),
                pc: (s.pc + 2) as u16,
                ..s
            }
        },
        Instruction::SkpX { x } => CpuState {
            pc: if s.keys[s.v[x as int] as int] {
                (s.pc + 4) as u16
            } else {
                (s.pc + 2) as u16
            },
            key_pending: false,
            ..s
        },
        Instruction::SknpX { x } => CpuState {
            pc: if !s.keys[s.v[x as int] as int] {
                (s.pc + 4) as u16
            } else {
                (s.pc + 2) as u16
            },
            key_pending: false,
            ..s
        },
        Instruction::LdXDt { x } => CpuState {
            v: s.v.update(x as int, s.delay_timer),
            pc: (s.pc + 2) as u16,
            ..s
        },
        Instruction::LdKey { x } => {
            if s.key_pending && lowest_pressed(s.keys, 0) is Some {
                CpuState {
                    v: s.v.update(x as int, lowest_pressed(s.keys, 0)->Some_0),
                    pc: (s.pc + 2) as u16,
                    key_pending: false,
                    ..s
                }
            } else {
                CpuState { key_pending: false, ..s }
            }
        },
        Instruction::LdDtX { x } => CpuState {
            delay_timer: s.v[x as int],
            pc: (s.pc + 2) as u16,
            ..s
        },
        Instruction::LdStX { x } => CpuState {
            sound_timer: s.v[x as int],
            pc: (s.pc + 2) as u16,
            ..s
        },
        Instruction::AddIX { x } => CpuState {
            i: ((s.i + s.v[x as int]) % 0x10000) as u16,
            pc: (s.pc + 2) as u16,
            ..s
        },
        Instruction::LdXSprite { x } => CpuState {
            i: ((s.v[x as int] & 0xF) * 5) as u16,
            pc: (s.pc + 2) as u16,
            ..s
        },
        Instruction::LdBcd { x } => {
            let val = s.v[x as int];
            CpuState {
                mem: s.mem.update(s.i as int, (val / 100) as u8).update(
                    s.i + 1,
                    ((val % 100) / 10) as u8,
                ).update(s.i + 2, (val % 10) as u8),
                pc: (s.pc + 2) as u16,
                ..s
            }
        },
        Instruction::LdIX { x } => CpuState {
            mem: Seq::new(
                4096,
                |k: int|
                    if s.i <= k <= s.i + x {
                        s.v[k - s.i]
                    } else {
                        s.mem[k]
                    },
            ),
            pc: (s.pc + 2) as u16,
            ..s
        },
        Instruction::LdXI { x } => CpuState {
            v: Seq::new(
                16,
                |k: int|
                    if k <= x {
                        s.mem[s.i + k]
                    } else {
                        s.v[k]
                    },
            ),
            pc: (s.pc + 2) as u16,
            ..s
        },
    }
}

/// Relies on rand::random: one uniformly distributed byte drawn from the
/// thread-local generator. Nothing is assumed of its value.
#[verifier::external_body]
fn random_byte() -> u8 {
    rand::random::<u8>()
}

/// The CPU instruction engine: the register file together with the memory,
/// display and keypad it drives. Input draining and presentation happen
/// outside, against the public fields; the engine itself is purely the
/// fetch-decode-execute step and the timer tick.
pub struct Cpu {
    pub registers: crate::registers::Registers,
    pub memory: BlockMemory,
    pub display: Display,
    pub keyboard: Keyboard,
}

impl View for Cpu {
    type V = CpuState;

    open spec fn view(&self) -> CpuState {
        CpuState {
            v: self.registers.v@,
            stack: self.registers.stack@,
            i: self.registers.i,
            pc: self.registers.pc,
            sp: self.registers.sp,
            delay_timer: self.registers.delay_timer,
            sound_timer: self.registers.sound_timer,
            mem: self.memory.memory@,
            pixels: self.display.pixels@,
            keys: self.keyboard.key_statuses@,
            key_pending: self.keyboard.key_press_pending,
        }
    }
}

impl Cpu {
    /// A fresh engine over the given memory image, display and keypad:
    /// registers and timers cleared, the PC at 0x200 where the ROM begins.
    pub fn new(memory: BlockMemory, display: Display, keyboard: Keyboard) -> (r: Cpu)
        ensures
            r@.mem == memory.memory@,
            r@.pixels == display.pixels@,
            r@.keys == keyboard.key_statuses@,
            r@.key_pending == keyboard.key_press_pending,
            forall|k: int| 0 <= k < 16 ==> r@.v[k] == 0,
            forall|k: int| 0 <= k < 16 ==> r@.stack[k] == 0,
            r@.i == 0,
            r@.pc == 0x200,
            r@.sp == 0,
            r@.delay_timer == 0,
            r@.sound_timer == 0,
            state_wf(r@),
    {
        Cpu { registers: crate::registers::Registers::new(), memory, display, keyboard }
    }

    /// Clear the display.
    fn op_cls(&mut self)
        requires
            state_wf(old(self)@),
            old(self)@.pc + 2 <= 0xFFFF,
        ensures
            state_wf(final(self)@),
            final(self)@ == instr_step(old(self)@, Instruction::Cls, 0),
    {
        self.display.clear();
        self.registers.pc = self.registers.pc + 2;
        proof {
            assert(self.display.pixels@ =~= Seq::new(2048, |k: int| false));
            assert(self@ =~= instr_step(old(self)@, Instruction::Cls, 0));
        }
    }

    /// Return from a subroutine: pop the stack and resume after the call.
    fn op_ret(&mut self)
        requires
            state_wf(old(self)@),
            !instr_fault(old(self)@, Instruction::Ret),
        ensures
            state_wf(final(self)@),
            final(self)@ == instr_step(old(self)@, Instruction::Ret, 0),
    {
        self.registers.sp = self.registers.sp - 1;
        self.registers.pc = self.registers.stack[self.registers.sp as usize];
        self.registers.pc = self.registers.pc + 2;
    }

    /// Jump to `nnn`, with no implicit advance.
    fn op_jp(&mut self, nnn: u16)
        requires
            state_wf(old(self)@),
        ensures
            state_wf(final(self)@),
            final(self)@ == instr_step(old(self)@, (Instruction::Jp { nnn }), 0),
    {
        self.registers.pc = nnn;
    }

    /// Jump to `V0 + nnn`, with no implicit advance.
    fn op_jp2(&mut self, nnn: u16)
        requires
            state_wf(old(self)@),
            nnn < 0x1000,
        ensures
            state_wf(final(self)@),
            final(self)@ == instr_step(old(self)@, (Instruction::Jp2 { nnn }), 0),
    {
        self.registers.pc = self.registers.v[0] as u16 + nnn;
    }

    /// Call the subroutine at `nnn`: push the current PC and jump.
    fn op_call(&mut self, nnn: u16)
        requires
            state_wf(old(self)@),
            old(self)@.sp < 16,
        ensures
            state_wf(final(self)@),
            final(self)@ == instr_step(old(self)@, (Instruction::Call { nnn }), 0),
    {
        self.registers.stack[self.registers.sp as usize] = self.registers.pc;
        self.registers.sp = self.registers.sp + 1;
        self.registers.pc = nnn;
    }

    /// Skip the next instruction if VX == KK.
    fn op_se_xkk(&mut self, x: u8, kk: u8)
        requires
            state_wf(old(self)@),
            x < 16,
            old(self)@.pc + 4 <= 0xFFFF,
        ensures
            state_wf(final(self)@),
            final(self)@ == instr_step(old(self)@, (Instruction::SeXkk { x, kk }), 0),
    {
        if self.registers.v[x as usize] == kk {
            self.registers.pc = self.registers.pc + 2;
        }
        self.registers.pc = self.registers.pc + 2;
    }

    /// Skip the next instruction if VX != KK.
    fn op_sne_xkk(&mut self, x: u8, kk: u8)
        requires
            state_wf(old(self)@),
            x < 16,
            old(self)@.pc + 4 <= 0xFFFF,
        ensures
            state_wf(final(self)@),
            final(self)@ == instr_step(old(self)@, (Instruction::SneXkk { x, kk }), 0),
    {
        if self.registers.v[x as usize] != kk {
            self.registers.pc = self.registers.pc + 2;
        }
        self.registers.pc = self.registers.pc + 2;
    }

    /// Skip the next instruction if VX == VY.
    fn op_se_xy(&mut self, x: u8, y: u8)
        requires
            state_wf(old(self)@),
            x < 16,
            y < 16,
            old(self)@.pc + 4 <= 0xFFFF,
        ensures
            state_wf(final(self)@),
            final(self)@ == instr_step(old(self)@, (Instruction::SeXy { x, y }), 0),
    {
        if self.registers.v[x as usize] == self.registers.v[y as usize] {
            self.registers.pc = self.registers.pc + 2;
        }
        self.registers.pc = self.registers.pc + 2;
    }

    /// Skip the next instruction if VX != VY.
    fn op_sne_xy(&mut self, x: u8, y: u8)
        requires
            state_wf(old(self)@),
            x < 16,
            y < 16,
            old(self)@.pc + 4 <= 0xFFFF,
        ensures
            state_wf(final(self)@),
            final(self)@ == instr_step(old(self)@, (Instruction::SneXy { x, y }), 0),
    {
        if self.registers.v[x as usize] != self.registers.v[y as usize] {
            self.registers.pc = self.registers.pc + 2;
        }
        self.registers.pc = self.registers.pc + 2;
    }

    /// VX = KK.
    fn op_ld_xkk(&mut self, x: u8, kk: u8)
        requires
            state_wf(old(self)@),
            x < 16,
            old(self)@.pc + 2 <= 0xFFFF,
        ensures
            state_wf(final(self)@),
            final(self)@ == instr_step(old(self)@, (Instruction::LdXkk { x, kk }), 0),
    {
        self.registers.v[x as usize] = kk;
        self.registers.pc = self.registers.pc + 2;
    }

    /// VX = VY.
    fn op_ld_xy(&mut self, x: u8, y: u8)
        requires
            state_wf(old(self)@),
            x < 16,
            y < 16,
            old(self)@.pc + 2 <= 0xFFFF,
        ensures
            state_wf(final(self)@),
            final(self)@ == instr_step(old(self)@, (Instruction::LdXy { x, y }), 0),
    {
        self.registers.v[x as usize] = self.registers.v[y as usize];
        self.registers.pc = self.registers.pc + 2;
    }

    /// I = NNN.
    fn op_ld_i_nnn(&mut self, nnn: u16)
        requires
            state_wf(old(self)@),
            old(self)@.pc + 2 <= 0xFFFF,
        ensures
            state_wf(final(self)@),
            final(self)@ == instr_step(old(self)@, (Instruction::LdINnn { nnn }), 0),
    {
        self.registers.i = nnn;
        self.registers.pc = self.registers.pc + 2;
    }

    /// VX = delay timer.
    fn op_ld_x_dt(&mut self, x: u8)
        requires
            state_wf(old(self)@),
            x < 16,
            old(self)@.pc + 2 <= 0xFFFF,
        ensures
            state_wf(final(self)@),
            final(self)@ == instr_step(old(self)@, (Instruction::LdXDt { x }), 0),
    {
        self.registers.v[x as usize] = self.registers.delay_timer;
        self.registers.pc = self.registers.pc + 2;
    }

    /// Delay timer = VX.
    fn op_ld_dt_x(&mut self, x: u8)
        requires
            state_wf(old(self)@),
            x < 16,
            old(self)@.pc + 2 <= 0xFFFF,
        ensures
            state_wf(final(self)@),
            final(self)@ == instr_step(old(self)@, (Instruction::LdDtX { x }), 0),
    {
        self.registers.delay_timer = self.registers.v[x as usize];
        self.registers.pc = self.registers.pc + 2;
    }

    /// Sound timer = VX, handing back the audio signal this write implies:
    /// resume for a nonzero value, pause for zero.
    fn op_ld_st_x(&mut self, x: u8) -> (r: Option<AudioCommand>)
        requires
            state_wf(old(self)@),
            x < 16,
            old(self)@.pc + 2 <= 0xFFFF,
        ensures
            state_wf(final(self)@),
            final(self)@ == instr_step(old(self)@, (Instruction::LdStX { x }), 0),
            r == instr_audio(old(self)@, (Instruction::LdStX { x })),
    {
        self.registers.sound_timer = self.registers.v[x as usize];
        self.registers.pc = self.registers.pc + 2;
        if self.registers.sound_timer > 0 {
            Some(AudioCommand::Resume)
        } else {
            Some(AudioCommand::Pause)
        }
    }

    /// I = the font sprite address for digit VX & 0xF: the digit sprites sit
    /// from address 0 onwards, five bytes each.
    fn op_ld_x_sprite(&mut self, x: u8)
        requires
            state_wf(old(self)@),
            x < 16,
            old(self)@.pc + 2 <= 0xFFFF,
        ensures
            state_wf(final(self)@),
            final(self)@ == instr_step(old(self)@, (Instruction::LdXSprite { x }), 0),
    {
        let val: u8 = self.registers.v[x as usize] & 0xF;
        self.registers.i = val as u16 * 0x5;
        self.registers.pc = self.registers.pc + 2;
    }

    /// Wait for a key press: once one is pending, store the key in VX and
    /// advance; otherwise leave the PC alone so this instruction retries on
    /// the next cycle. Reading clears the pending latch either way.
    fn op_ld_key(&mut self, x: u8)
        requires
            state_wf(old(self)@),
            x < 16,
            old(self)@.pc + 2 <= 0xFFFF,
        ensures
            state_wf(final(self)@),
            final(self)@ == instr_step(old(self)@, (Instruction::LdKey { x }), 0),
    {
        match self.keyboard.any_key_pressed() {
            Some(key) => {
                self.registers.v[x as usize] = key;
                self.registers.pc = self.registers.pc + 2;
            },
            None => {},
        }
    }

    /// Skip the next instruction if key VX is down.
    fn op_skp(&mut self, x: u8)
        requires
            state_wf(old(self)@),
            x < 16,
            old(self)@.v[x as int] < 16,
            old(self)@.pc + 4 <= 0xFFFF,
        ensures
            state_wf(final(self)@),
            final(self)@ == instr_step(old(self)@, (Instruction::SkpX { x }), 0),
    {
        let key: u8 = self.registers.v[x as usize];
        if self.keyboard.is_pressed(key) {
            self.registers.pc = self.registers.pc + 2;
        }
        self.registers.pc = self.registers.pc + 2;
    }

    /// Skip the next instruction if key VX is not down.
    fn op_sknp(&mut self, x: u8)
        requires
            state_wf(old(self)@),
            x < 16,
            old(self)@.v[x as int] < 16,
            old(self)@.pc + 4 <= 0xFFFF,
        ensures
            state_wf(final(self)@),
            final(self)@ == instr_step(old(self)@, (Instruction::SknpX { x }), 0),
    {
        let key: u8 = self.registers.v[x as usize];
        if !self.keyboard.is_pressed(key) {
            self.registers.pc = self.registers.pc + 2;
        }
        self.registers.pc = self.registers.pc + 2;
    }

    /// VX = VX + KK, wrapping, with no flag side effect.
    fn op_add_xkk(&mut self, x: u8, kk: u8)
        requires
            state_wf(old(self)@),
            x < 16,
            old(self)@.pc + 2 <= 0xFFFF,
        ensures
            state_wf(final(self)@),
            final(self)@ == instr_step(old(self)@, (Instruction::AddXkk { x, kk }), 0),
    {
        let vx: u8 = self.registers.v[x as usize];
        let sum: u16 = vx as u16 + kk as u16;
        self.registers.v[x as usize] = (sum % 256) as u8;
        self.registers.pc = self.registers.pc + 2;
    }

    /// VX = VX + VY, wrapping; VF = 1 exactly when the unsigned sum
    /// overflowed eight bits.
    fn op_add_xy(&mut self, x: u8, y: u8)
        requires
            state_wf(old(self)@),
            x < 16,
            y < 16,
            old(self)@.pc + 2 <= 0xFFFF,
        ensures
            state_wf(final(self)@),
            final(self)@ == instr_step(old(self)@, (Instruction::AddXy { x, y }), 0),
    {
        let vx: u8 = self.registers.v[x as usize];
        let vy: u8 = self.registers.v[y as usize];
        let sum: u16 = vx as u16 + vy as u16;
        let carry: u8 = if sum > 255 {
            1
        } else {
            0
        };
        self.registers.v[15] = carry;
        self.registers.v[x as usize] = (sum % 256) as u8;
        self.registers.pc = self.registers.pc + 2;
    }

    /// I = I + VX, wrapping over sixteen bits, with no flag side effect.
    fn op_add_i_x(&mut self, x: u8)
        requires
            state_wf(old(self)@),
            x < 16,
            old(self)@.pc + 2 <= 0xFFFF,
        ensures
            state_wf(final(self)@),
            final(self)@ == instr_step(old(self)@, (Instruction::AddIX { x }), 0),
    {
        let vx: u8 = self.registers.v[x as usize];
        let sum: u32 = self.registers.i as u32 + vx as u32;
        self.registers.i = (sum % 0x10000) as u16;
        self.registers.pc = self.registers.pc + 2;
    }

    /// VX = VX - VY, wrapping; VF = 1 exactly when no borrow occurred, that
    /// is when VX >= VY.
    fn op_sub_xy(&mut self, x: u8, y: u8)
        requires
            state_wf(old(self)@),
            x < 16,
            y < 16,
            old(self)@.pc + 2 <= 0xFFFF,
        ensures
            state_wf(final(self)@),
            final(self)@ == instr_step(old(self)@, (Instruction::SubXy { x, y }), 0),
    {
        let vx: u8 = self.registers.v[x as usize];
        let vy: u8 = self.registers.v[y as usize];
        let no_borrow: u8 = if vx >= vy {
            1
        } else {
            0
        };
        let diff: u16 = (vx as u16 + 256 - vy as u16) % 256;
        proof {
            vstd::arithmetic::div_mod::lemma_mod_add_multiples_vanish(
                vx as int - vy as int,
                256,
            );
        }
        self.registers.v[15] = no_borrow;
        self.registers.v[x as usize] = diff as u8;
        self.registers.pc = self.registers.pc + 2;
    }

    /// VX = VY - VX, wrapping; VF = 1 exactly when no borrow occurred, that
    /// is when VY >= VX.
    fn op_subn_xy(&mut self, x: u8, y: u8)
        requires
            state_wf(old(self)@),
            x < 16,
            y < 16,
            old(self)@.pc + 2 <= 0xFFFF,
        ensures
            state_wf(final(self)@),
            final(self)@ == instr_step(old(self)@, (Instruction::SubnXy { x, y }), 0),
    {
        let vx: u8 = self.registers.v[x as usize];
        let vy: u8 = self.registers.v[y as usize];
        let no_borrow: u8 = if vy >= vx {
            1
        } else {
            0
        };
        let diff: u16 = (vy as u16 + 256 - vx as u16) % 256;
        proof {
            vstd::arithmetic::div_mod::lemma_mod_add_multiples_vanish(
                vy as int - vx as int,
                256,
            );
        }
        self.registers.v[15] = no_borrow;
        self.registers.v[x as usize] = diff as u8;
        self.registers.pc = self.registers.pc + 2;
    }

    /// VX = VX | VY.
    fn op_or_xy(&mut self, x: u8, y: u8)
        requires
            state_wf(old(self)@),
            x < 16,
            y < 16,
            old(self)@.pc + 2 <= 0xFFFF,
        ensures
            state_wf(final(self)@),
            final(self)@ == instr_step(old(self)@, (Instruction::OrXy { x, y }), 0),
    {
        let vy: u8 = self.registers.v[y as usize];
        let vx: u8 = self.registers.v[x as usize];
        self.registers.v[x as usize] = vx | vy;
        self.registers.pc = self.registers.pc + 2;
    }

    /// VX = VX & VY.
    fn op_and_xy(&mut self, x: u8, y: u8)
        requires
            state_wf(old(self)@),
            x < 16,
            y < 16,
            old(self)@.pc + 2 <= 0xFFFF,
        ensures
            state_wf(final(self)@),
            final(self)@ == instr_step(old(self)@, (Instruction::AndXy { x, y }), 0),
    {
        let vy: u8 = self.registers.v[y as usize];
        let vx: u8 = self.registers.v[x as usize];
        self.registers.v[x as usize] = vx & vy;
        self.registers.pc = self.registers.pc + 2;
    }

    /// VX = VX ^ VY.
    fn op_xor_xy(&mut self, x: u8, y: u8)
        requires
            state_wf(old(self)@),
            x < 16,
            y < 16,
            old(self)@.pc + 2 <= 0xFFFF,
        ensures
            state_wf(final(self)@),
            final(self)@ == instr_step(old(self)@, (Instruction::XorXy { x, y }), 0),
    {
        let vy: u8 = self.registers.v[y as usize];
        let vx: u8 = self.registers.v[x as usize];
        self.registers.v[x as usize] = vx ^ vy;
        self.registers.pc = self.registers.pc + 2;
    }

    /// VF = bit 0 of VX (the bit shifted out); VX = VX >> 1.
    fn op_shr_x(&mut self, x: u8)
        requires
            state_wf(old(self)@),
            x < 16,
            old(self)@.pc + 2 <= 0xFFFF,
        ensures
            state_wf(final(self)@),
            final(self)@ == instr_step(old(self)@, (Instruction::ShrX { x }), 0),
    {
        let vx: u8 = self.registers.v[x as usize];
        self.registers.v[15] = vx & 1;
        self.registers.v[x as usize] = vx >> 1u8;
        self.registers.pc = self.registers.pc + 2;
    }

    /// VF = the top bit of VX; VX = VX << 1, wrapping.
    fn op_shl_x(&mut self, x: u8)
        requires
            state_wf(old(self)@),
            x < 16,
            old(self)@.pc + 2 <= 0xFFFF,
        ensures
            state_wf(final(self)@),
            final(self)@ == instr_step(old(self)@, (Instruction::ShlX { x }), 0),
    {
        let vx: u8 = self.registers.v[x as usize];
        let msb: u8 = if vx & 0x80 != 0 {
            1
        } else {
            0
        };
        self.registers.v[15] = msb;
        self.registers.v[x as usize] = ((vx as u16 * 2) % 256) as u8;
        self.registers.pc = self.registers.pc + 2;
    }

    /// VX = (random byte) & KK. The byte comes from the random-number
    /// source; nothing is known of it beyond the masking.
    fn op_rnd(&mut self, x: u8, kk: u8)
        requires
            state_wf(old(self)@),
            x < 16,
            old(self)@.pc + 2 <= 0xFFFF,
        ensures
            state_wf(final(self)@),
            exists|b: u8|
                final(self)@ == instr_step(old(self)@, (Instruction::RndXkk { x, kk }), b),
    {
        let byte: u8 = random_byte();
        self.registers.v[x as usize] = byte & kk;
        self.registers.pc = self.registers.pc + 2;
        proof {
            assert(self@ == instr_step(old(self)@, (Instruction::RndXkk { x, kk }), byte));
        }
    }

    /// Draw the N-byte sprite at Memory[I..I+N] at (VX, VY); VF reports
    /// whether a previously-set pixel was erased.
    fn op_drw(&mut self, x: u8, y: u8, n: u8)
        requires
            state_wf(old(self)@),
            x < 16,
            y < 16,
            1 <= n <= 15,
            old(self)@.i + n <= 4096,
            old(self)@.pc + 2 <= 0xFFFF,
        ensures
            state_wf(final(self)@),
            final(self)@ == instr_step(old(self)@, (Instruction::Drw { x, y, n }), 0),
    {
        let xcoord: u8 = self.registers.v[x as usize];
        let ycoord: u8 = self.registers.v[y as usize];
        let sprite: Vec<u8> = self.memory.read_block(self.registers.i, n as usize);
        let erased: bool = self.display.draw_sprite(xcoord, ycoord, sprite.as_slice());
        self.registers.v[15] = if erased {
            1
        } else {
            0
        };
        self.registers.pc = self.registers.pc + 2;
    }

    /// Write the decimal digits of VX (hundreds, tens, ones) to Memory[I],
    /// Memory[I+1], Memory[I+2].
    fn op_ld_bcd(&mut self, x: u8)
        requires
            state_wf(old(self)@),
            x < 16,
            old(self)@.i + 2 < 4096,
            old(self)@.pc + 2 <= 0xFFFF,
        ensures
            state_wf(final(self)@),
            final(self)@ == instr_step(old(self)@, (Instruction::LdBcd { x }), 0),
    {
        let val: u8 = self.registers.v[x as usize];
        let base: u16 = self.registers.i;
        self.memory.write_byte(base, val / 100);
        self.memory.write_byte(base + 1, val % 100 / 10);
        self.memory.write_byte(base + 2, val % 10);
        self.registers.pc = self.registers.pc + 2;
    }

    /// Block copy of V0..=VX to Memory starting at I.
    fn op_ld_i_x(&mut self, x: u8)
        requires
            state_wf(old(self)@),
            x < 16,
            old(self)@.i + x < 4096,
            old(self)@.pc + 2 <= 0xFFFF,
        ensures
            state_wf(final(self)@),
            final(self)@ == instr_step(old(self)@, (Instruction::LdIX { x }), 0),
    {
        let base: u16 = self.registers.i;
        proof {
            assert(self.memory.memory@ =~= Seq::new(
                4096,
                |k: int|
                    if base <= k < base + 0 {
                        old(self)@.v[k - base]
                    } else {
                        old(self)@.mem[k]
                    },
            ));
        }
        let mut j: usize = 0;
        while j <= x as usize
            invariant
                state_wf(old(self)@),
                j <= x as usize + 1,
                x < 16,
                base == old(self)@.i,
                base + x < 4096,
                self.registers == old(self).registers,
                self.display == old(self).display,
                self.keyboard == old(self).keyboard,
                self.memory.memory@ == Seq::new(
                    4096,
                    |k: int|
                        if base <= k < base + j {
                            old(self)@.v[k - base]
                        } else {
                            old(self)@.mem[k]
                        },
                ),
            decreases x as int + 1 - j as int,
        {
            let value: u8 = self.registers.v[j];
            self.memory.write_byte(base + j as u16, value);
            proof {
                assert(self.memory.memory@ =~= Seq::new(
                    4096,
                    |k: int|
                        if base <= k < base + (j + 1) {
                            old(self)@.v[k - base]
                        } else {
                            old(self)@.mem[k]
                        },
                ));
            }
            j += 1;
        }
        self.registers.pc = self.registers.pc + 2;
        proof {
            assert(self@.mem =~= instr_step(old(self)@, (Instruction::LdIX { x }), 0).mem);
            assert(self@ =~= instr_step(old(self)@, (Instruction::LdIX { x }), 0));
        }
    }

    /// Block load of V0..=VX from Memory starting at I.
    fn op_ld_x_i(&mut self, x: u8)
        requires
            state_wf(old(self)@),
            x < 16,
            old(self)@.i + x < 4096,
            old(self)@.pc + 2 <= 0xFFFF,
        ensures
            state_wf(final(self)@),
            final(self)@ == instr_step(old(self)@, (Instruction::LdXI { x }), 0),
    {
        let base: u16 = self.registers.i;
        proof {
            assert(self.registers.v@ =~= Seq::new(
                16,
                |k: int|
                    if 0 <= k < 0 {
                        old(self)@.mem[base + k]
                    } else {
                        old(self)@.v[k]
                    },
            ));
        }
        let mut j: usize = 0;
        while j <= x as usize
            invariant
                state_wf(old(self)@),
                j <= x as usize + 1,
                x < 16,
                base == old(self)@.i,
                base + x < 4096,
                self.registers.stack == old(self).registers.stack,
                self.registers.i == old(self).registers.i,
                self.registers.pc == old(self).registers.pc,
                self.registers.sp == old(self).registers.sp,
                self.registers.delay_timer == old(self).registers.delay_timer,
                self.registers.sound_timer == old(self).registers.sound_timer,
                self.memory == old(self).memory,
                self.display == old(self).display,
                self.keyboard == old(self).keyboard,
                self.registers.v@ == Seq::new(
                    16,
                    |k: int|
                        if 0 <= k < j {
                            old(self)@.mem[base + k]
                        } else {
                            old(self)@.v[k]
                        },
                ),
            decreases x as int + 1 - j as int,
        {
            let value: u8 = self.memory.read_byte(base + j as u16);
            self.registers.v[j] = value;
            proof {
                assert(self.registers.v@ =~= Seq::new(
                    16,
                    |k: int|
                        if 0 <= k < j + 1 {
                            old(self)@.mem[base + k]
                        } else {
                            old(self)@.v[k]
                        },
                ));
            }
            j += 1;
        }
        self.registers.pc = self.registers.pc + 2;
        proof {
            assert(self@.v =~= instr_step(old(self)@, (Instruction::LdXI { x }), 0).v);
            assert(self@ =~= instr_step(old(self)@, (Instruction::LdXI { x }), 0));
        }
    }

    /// Execute one decoded instruction: the dispatcher's single transition.
    /// A resource fault (stack overflow or underflow, a memory address or
    /// key index out of range) leaves the state untouched and is returned as
    /// an error for the caller to make fatal; otherwise the state moves as
    /// `instr_step` describes and any audio signal is handed back.
    pub fn execute_instruction(&mut self, instr: Instruction) -> (r: Result<
        Option<AudioCommand>,
        CpuError,
    >)
        requires
            state_wf(old(self)@),
            instr_wf(instr),
            old(self)@.pc + 4 <= 0xFFFF,
        ensures
            state_wf(final(self)@),
            (match r {
                Ok(cmd) => {
                    &&& !instr_fault(old(self)@, instr)
                    &&& cmd == instr_audio(old(self)@, instr)
                    &&& (if instr is RndXkk {
                        exists|b: u8| final(self)@ == instr_step(old(self)@, instr, b)
                    } else {
                        final(self)@ == instr_step(old(self)@, instr, 0)
                    })
                },
                Err(e) => {
                    &&& instr_fault(old(self)@, instr)
                    &&& e == CpuError::ResourceExhausted
                    &&& final(self)@ == old(self)@
                },
            }),
    {
        match instr {
            Instruction::Cls => {
                self.op_cls();
                Ok(None)
            },
            Instruction::Ret => {
                if self.registers.sp == 0 {
                    return Err(CpuError::ResourceExhausted);
                }
                let addr: u16 = self.registers.stack[(self.registers.sp - 1) as usize];
                if addr > 0xFFFD {
                    return Err(CpuError::ResourceExhausted);
                }
                self.op_ret();
                Ok(None)
            },
            Instruction::Jp { nnn } => {
                self.op_jp(nnn);
                Ok(None)
            },
            Instruction::Call { nnn } => {
                if self.registers.sp >= 16 {
                    return Err(CpuError::ResourceExhausted);
                }
                self.op_call(nnn);
                Ok(None)
            },
            Instruction::SeXkk { x, kk } => {
                self.op_se_xkk(x, kk);
                Ok(None)
            },
            Instruction::SneXkk { x, kk } => {
                self.op_sne_xkk(x, kk);
                Ok(None)
            },
            Instruction::SeXy { x, y } => {
                self.op_se_xy(x, y);
                Ok(None)
            },
            Instruction::LdXkk { x, kk } => {
                self.op_ld_xkk(x, kk);
                Ok(None)
            },
            Instruction::AddXkk { x, kk } => {
                self.op_add_xkk(x, kk);
                Ok(None)
            },
            Instruction::LdXy { x, y } => {
                self.op_ld_xy(x, y);
                Ok(None)
            },
            Instruction::OrXy { x, y } => {
                self.op_or_xy(x, y);
                Ok(None)
            },
            Instruction::AndXy { x, y } => {
                self.op_and_xy(x, y);
                Ok(None)
            },
            Instruction::XorXy { x, y } => {
                self.op_xor_xy(x, y);
                Ok(None)
            },
            Instruction::AddXy { x, y } => {
                self.op_add_xy(x, y);
                Ok(None)
            },
            Instruction::SubXy { x, y } => {
                self.op_sub_xy(x, y);
                Ok(None)
            },
            Instruction::ShrX { x } => {
                self.op_shr_x(x);
                Ok(None)
            },
            Instruction::SubnXy { x, y } => {
                self.op_subn_xy(x, y);
                Ok(None)
            },
            Instruction::ShlX { x } => {
                self.op_shl_x(x);
                Ok(None)
            },
            Instruction::SneXy { x, y } => {
                self.op_sne_xy(x, y);
                Ok(None)
            },
            Instruction::LdINnn { nnn } => {
                self.op_ld_i_nnn(nnn);
                Ok(None)
            },
            Instruction::Jp2 { nnn } => {
                self.op_jp2(nnn);
                Ok(None)
            },
            Instruction::RndXkk { x, kk } => {
                self.op_rnd(x, kk);
                Ok(None)
            },
            Instruction::Drw { x, y, n } => {
                if self.registers.i as usize + n as usize > 4096 {
                    return Err(CpuError::ResourceExhausted);
                }
                self.op_drw(x, y, n);
                Ok(None)
            },
            Instruction::SkpX { x } => {
                if self.registers.v[x as usize] >= 16 {
                    return Err(CpuError::ResourceExhausted);
                }
                self.op_skp(x);
                Ok(None)
            },
            Instruction::SknpX { x } => {
                if self.registers.v[x as usize] >= 16 {
                    return Err(CpuError::ResourceExhausted);
                }
                self.op_sknp(x);
                Ok(None)
            },
            Instruction::LdXDt { x } => {
                self.op_ld_x_dt(x);
                Ok(None)
            },
            Instruction::LdKey { x } => {
                self.op_ld_key(x);
                Ok(None)
            },
            Instruction::LdDtX { x } => {
                self.op_ld_dt_x(x);
                Ok(None)
            },
            Instruction::LdStX { x } => {
                let cmd = self.op_ld_st_x(x);
                Ok(cmd)
            },
            Instruction::AddIX { x } => {
                self.op_add_i_x(x);
                Ok(None)
            },
            Instruction::LdXSprite { x } => {
                self.op_ld_x_sprite(x);
                Ok(None)
            },
            Instruction::LdBcd { x } => {
                if self.registers.i as usize + 2 >= 4096 {
                    return Err(CpuError::ResourceExhausted);
                }
                self.op_ld_bcd(x);
                Ok(None)
            },
            Instruction::LdIX { x } => {
                if self.registers.i as usize + x as usize >= 4096 {
                    return Err(CpuError::ResourceExhausted);
                }
                self.op_ld_i_x(x);
                Ok(None)
            },
            Instruction::LdXI { x } => {
                if self.registers.i as usize + x as usize >= 4096 {
                    return Err(CpuError::ResourceExhausted);
                }
                self.op_ld_x_i(x);
                Ok(None)
            },
        }
    }

    /// The opcode at the program counter, fetched big-endian: Memory[PC] is
    /// the high byte, Memory[PC+1] the low byte.
    fn fetch_opcode(&self) -> (r: Opcode)
        requires
            state_wf(self@),
            self@.pc as int + 1 < 4096,
        ensures
            r.code == fetch_spec(self@.mem, self@.pc),
    {
        let pc: u16 = self.registers.pc;
        let byte1: u8 = self.memory.read_byte(pc);
        let byte2: u8 = self.memory.read_byte(pc + 1);
        Opcode::new(((byte1 as u16) << 8u16) | (byte2 as u16))
    }

    /// One fetch-decode-execute step. Input draining happens outside,
    /// before the call; the handler itself moves the PC. The errors are
    /// fatal to the engine: an opcode matching no instruction pattern is
    /// returned for diagnosis, and a fetch outside memory or a resource
    /// fault ends the run the same way, with the state left untouched.
    pub fn cycle(&mut self) -> (r: Result<Option<AudioCommand>, CpuError>)
        requires
            state_wf(old(self)@),
        ensures
            state_wf(final(self)@),
            (({
                let pre = old(self)@;
                if pre.pc as int + 1 >= 4096 {
                    r == Err::<Option<AudioCommand>, CpuError>(CpuError::ResourceExhausted)
                        && final(self)@ == pre
                } else {
                    let op = fetch_spec(pre.mem, pre.pc);
                    match decode_spec(op) {
                        None => r == Err::<Option<AudioCommand>, CpuError>(
                            CpuError::UnknownOpcode(op),
                        ) && final(self)@ == pre,
                        Some(instr) => if instr_fault(pre, instr) {
                            r == Err::<Option<AudioCommand>, CpuError>(
                                CpuError::ResourceExhausted,
                            ) && final(self)@ == pre
                        } else {
                            r == Ok::<Option<AudioCommand>, CpuError>(instr_audio(pre, instr))
                                && (if instr is RndXkk {
                                exists|b: u8| final(self)@ == instr_step(pre, instr, b)
                            } else {
                                final(self)@ == instr_step(pre, instr, 0)
                            })
                        },
                    }
                }
            })),
    {
        if self.registers.pc >= 4095 {
            return Err(CpuError::ResourceExhausted);
        }
        let opcode: Opcode = self.fetch_opcode();
        match decode(opcode) {
            None => Err(CpuError::UnknownOpcode(opcode.code)),
            Some(instr) => self.execute_instruction(instr),
        }
    }

    /// One timer tick, independent of how many instructions ran: each timer
    /// above zero counts down by one, never below, and the tick on which the
    /// sound timer reaches zero tells the audio device to pause.
    pub fn decrement_timers(&mut self) -> (r: Option<AudioCommand>)
        ensures
            (final(self)@ == CpuState {
                delay_timer: if old(self)@.delay_timer > 0 {
                    (old(self)@.delay_timer - 1) as u8
                } else {
                    0u8
                },
                sound_timer: if old(self)@.sound_timer > 0 {
                    (old(self)@.sound_timer - 1) as u8
                } else {
                    0u8
                },
                ..old(self)@
            }),
            (r == if old(self)@.sound_timer == 1 {
                Some(AudioCommand::Pause)
            } else {
                None::<AudioCommand>
            }),
    {
        let mut r: Option<AudioCommand> = None;
        if self.registers.delay_timer > 0 {
            self.registers.delay_timer = self.registers.delay_timer - 1;
        }
        if self.registers.sound_timer > 0 {
            self.registers.sound_timer = self.registers.sound_timer - 1;
            if self.registers.sound_timer == 0 {
                r = Some(AudioCommand::Pause);
            }
        }
        r
    }
}

/// For any 8-bit values a and b in VX and VY, the register add leaves
/// VX = (a + b) mod 256 and the flag register VF = 1 exactly when the
/// unsigned sum exceeds 255. (When X is the flag register itself, the
/// result overwrites the flag, so X = 0xF is left out.)
pub proof fn lemma_add_xy_wraps(s: CpuState, x: u8, y: u8, rand: u8)
    requires
        state_wf(s),
        x < 15,
        y < 16,
    ensures
        instr_step(s, (Instruction::AddXy { x, y }), rand).v[x as int] == (s.v[x as int] + s.v[
            y as int
        ]) % 256,
        instr_step(s, (Instruction::AddXy { x, y }), rand).v[15] == if s.v[x as int] + s.v[y as int]
            > 255 {
            1u8
        } else {
            0u8
        },
{
}

/// Loading an immediate advances the program counter by exactly two, from
/// any prior value the counter can fetch from.
pub proof fn lemma_ld_xkk_advances_pc(s: CpuState, x: u8, kk: u8, rand: u8)
    requires
        state_wf(s),
        x < 16,
        s.pc + 2 <= 0xFFFF,
    ensures
        instr_step(s, (Instruction::LdXkk { x, kk }), rand).pc == s.pc + 2,
{
}

/// A jump sets the program counter to exactly its target, whatever the
/// prior value: there is no implicit advance.
pub proof fn lemma_jp_sets_pc(s: CpuState, nnn: u16, rand: u8)
    ensures
        instr_step(s, (Instruction::Jp { nnn }), rand).pc == nnn,
{
}

/// Calling a subroutine and returning round-trips: after RET, the program
/// counter is the value it had just before CALL, plus two — the instruction
/// following the call site.
pub proof fn lemma_call_ret_round_trip(s: CpuState, nnn: u16, rand: u8)
    requires
        state_wf(s),
        s.sp < 16,
        s.pc + 2 <= 0xFFFF,
    ensures
        ({
            let called = instr_step(s, (Instruction::Call { nnn }), rand);
            &&& state_wf(called)
            &&& !instr_fault(called, Instruction::Ret)
            &&& instr_step(called, Instruction::Ret, rand).pc == s.pc + 2
        }),
{
}

} // verus!

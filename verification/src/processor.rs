//! The machine state and the opcode handlers.
//!
//! [`Processor`] owns memory, registers, stack, timers, keypad and the two
//! display buffers. Each opcode family has one handler; every handler's
//! contract states its exact effect as a transition on the machine's ghost
//! image ([`crate::model::MachineView`]) and names the program-counter action
//! it returns.

use rand::Rng;
use vstd::prelude::*;

use crate::model::{
    initial, instr_of, kk_of, nnn_of, set_v, skip_if_spec, MachineView, KEYS_SZ, LOAD_ADDR,
    RAM_SZ, STACK_SZ, V_SZ,
};

verus! {

/// Machine state of one CHIP-8 virtual machine.
pub struct Processor {
    /// The visible display buffer, row-major, one flag per pixel.
    pub pixels: Vec<bool>,
    /// The scratch display buffer a clear or draw works in before
    /// publishing; always the same size as `pixels`.
    pub cycle_buffer: Vec<bool>,
    /// Addressable memory; always [`RAM_SZ`] bytes.
    pub ram: Vec<u8>,
    /// Return-address stack; always [`STACK_SZ`] slots.
    pub stack: Vec<u16>,
    /// The sixteen general-purpose registers; register 15 doubles as the
    /// carry/borrow/collision flag.
    pub v: Vec<u8>,
    /// The index register `I`.
    pub i: u16,
    /// The program counter.
    pub pc: u16,
    /// The stack pointer, indexing the current top of `stack`.
    pub sp: u16,
    /// The delay timer; decremented by an external driver, not by the core.
    pub delay_timer: u8,
    /// The sound timer; decremented by an external driver, not by the core.
    pub sound_timer: u8,
    /// One pressed/released flag per hexadecimal key.
    pub keypad: Vec<bool>,
    /// Display width in pixels, fixed at construction.
    pub width: usize,
    /// Display height in pixels, fixed at construction.
    pub height: usize,
}

impl View for Processor {
    type V = MachineView;

    open spec fn view(&self) -> MachineView {
        MachineView {
            pixels: self.pixels@,
            cycle_buffer: self.cycle_buffer@,
            ram: self.ram@,
            stack: self.stack@,
            v: self.v@,
            i: self.i,
            pc: self.pc,
            sp: self.sp,
            delay_timer: self.delay_timer,
            sound_timer: self.sound_timer,
            keypad: self.keypad@,
            width: self.width,
            height: self.height,
        }
    }
}

/// What a handler tells the dispatcher to do with the program counter once
/// it returns: advance one instruction, skip one, or jump.
#[derive(Debug, PartialEq, Eq, Structural)]
pub enum ProcessorAction {
    NextInstruction,
    SkipInstruction,
    JumpInstruction(u16),
}

/// Relies on rand::Rng::gen_range, through rand::thread_rng: a sample from
/// the range `0..256`, which fits a byte. The value depends on the thread's
/// generator, so nothing is promised of it.
#[verifier::external_body]
fn random_byte() -> u8 {
    rand::thread_rng().gen_range(0..256) as u8
}

/// The action that skips one instruction when `v` holds and advances
/// normally otherwise.
pub fn skip_if(v: bool) -> (r: ProcessorAction)
    ensures
        r == skip_if_spec(v),
{
    if v {
        ProcessorAction::SkipInstruction
    } else {
        ProcessorAction::NextInstruction
    }
}

/// The operand groupings of a nibble tuple: the 12-bit address `nnn`, the
/// immediate byte `kk`, and the register indices and count `x`, `y`, `n`.
pub fn process_nibbles(nibbles: (u8, u8, u8, u8)) -> (r: (u16, u8, usize, usize, usize))
    ensures
        r.0 == nnn_of(nibbles.1, nibbles.2, nibbles.3),
        r.1 == kk_of(nibbles.2, nibbles.3),
        r.2 == nibbles.1 as usize,
        r.3 == nibbles.2 as usize,
        r.4 == nibbles.3 as usize,
{
    let x = nibbles.1 as usize;
    let y = nibbles.2 as usize;
    let n = nibbles.3 as usize;
    let kk = {
        let nib1 = nibbles.2 << 4;
        let nib2 = nibbles.3;
        nib1 | nib2
    };
    let nnn = {
        let nib1 = (nibbles.1 as u16) << 8;
        let nib2 = (nibbles.2 as u16) << 4;
        let nib3 = nibbles.3 as u16;
        (nib1 | nib2) | nib3
    };
    (nnn, kk, x, y, n)
}

impl Processor {
    /// A fresh machine for a `width` by `height` display: zeroed memory,
    /// registers and timers, both display buffers off, program counter at
    /// the load address.
    pub fn new(width: usize, height: usize) -> (r: Processor)
        requires
            width >= 1,
            height >= 1,
            width * height <= usize::MAX,
        ensures
            r@ == initial(width, height),
            r@.wf(),
    {
        let sz = width * height;
        let p = Processor {
            pixels: vec![false; sz],
            cycle_buffer: vec![false; sz],
            ram: vec![0u8; RAM_SZ],
            stack: vec![0u16; STACK_SZ],
            v: vec![0u8; V_SZ],
            i: 0,
            pc: 0x200,
            sp: 0,
            delay_timer: 0,
            sound_timer: 0,
            keypad: vec![false; KEYS_SZ],
            width,
            height,
        };
        proof {
            assert(p@ =~= initial(width, height));
        }
        p
    }

    /// Clear the display: every pixel of the scratch buffer is turned off,
    /// and the cleared buffer is published to the visible buffer.
    pub fn op_00E0(&mut self) -> (r: ProcessorAction)
        ensures
            final(self)@ == crate::model::clear_display(old(self)@),
            r == ProcessorAction::NextInstruction,
    {
        let n = self.cycle_buffer.len();
        let mut j: usize = 0;
        while j < n
            invariant
                j <= n,
                n == self.cycle_buffer@.len(),
                forall|k: int| 0 <= k < j ==> !self.cycle_buffer@[k],
                self@ == (MachineView { cycle_buffer: self.cycle_buffer@, ..old(self)@ }),
            decreases n - j,
        {
            self.cycle_buffer[j] = false;
            j = j + 1;
        }
        self.pixels = self.cycle_buffer.clone();
        proof {
            assert(self.pixels@ =~= self.cycle_buffer@);
            assert(self@ =~~= crate::model::clear_display(old(self)@));
        }
        ProcessorAction::NextInstruction
    }

    /// Unconditional jump: the program counter is redirected to `nnn`.
    pub fn op_1nnn(&mut self, nibbles: (u8, u8, u8, u8)) -> (r: ProcessorAction)
        ensures
            final(self)@ == old(self)@,
            r == ProcessorAction::JumpInstruction(nnn_of(nibbles.1, nibbles.2, nibbles.3)),
    {
        let (nnn, _, _, _, _) = process_nibbles(nibbles);
        ProcessorAction::JumpInstruction(nnn)
    }

    /// Skip the next instruction if register `v[x]` equals the immediate
    /// byte `kk`.
    pub fn op_3xkk(&mut self, nibbles: (u8, u8, u8, u8)) -> (r: ProcessorAction)
        requires
            old(self)@.wf(),
            nibbles.1 < 16,
        ensures
            final(self)@ == old(self)@,
            r == skip_if_spec(old(self)@.v[nibbles.1 as int] == kk_of(nibbles.2, nibbles.3)),
    {
        let (_, kk, x, _, _) = process_nibbles(nibbles);
        let vx = self.v[x];
        if vx == kk {
            ProcessorAction::SkipInstruction
        } else {
            ProcessorAction::NextInstruction
        }
    }

    /// Skip the next instruction if register `v[x]` differs from the
    /// immediate byte `kk`.
    pub fn op_4xkk(&mut self, nibbles: (u8, u8, u8, u8)) -> (r: ProcessorAction)
        requires
            old(self)@.wf(),
            nibbles.1 < 16,
        ensures
            final(self)@ == old(self)@,
            r == skip_if_spec(old(self)@.v[nibbles.1 as int] != kk_of(nibbles.2, nibbles.3)),
    {
        let (_, kk, x, _, _) = process_nibbles(nibbles);
        let vx = self.v[x];
        skip_if(vx != kk)
    }

    /// Skip the next instruction if registers `v[x]` and `v[y]` are equal.
    pub fn op_5xy0(&mut self, nibbles: (u8, u8, u8, u8)) -> (r: ProcessorAction)
        requires
            old(self)@.wf(),
            nibbles.1 < 16,
            nibbles.2 < 16,
        ensures
            final(self)@ == old(self)@,
            r == skip_if_spec(
                old(self)@.v[nibbles.1 as int] == old(self)@.v[nibbles.2 as int],
            ),
    {
        let (_, _, x, y, _) = process_nibbles(nibbles);
        let vx = self.v[x];
        let vy = self.v[y];
        skip_if(vx == vy)
    }

    /// Load immediate: `v[x] := kk`.
    pub fn op_6xkk(&mut self, nibbles: (u8, u8, u8, u8)) -> (r: ProcessorAction)
        requires
            old(self)@.wf(),
            nibbles.1 < 16,
        ensures
            final(self)@ == set_v(old(self)@, nibbles.1 as int, kk_of(nibbles.2, nibbles.3)),
            r == ProcessorAction::NextInstruction,
    {
        let (_, kk, _, _, _) = process_nibbles(nibbles);
        let x = nibbles.1 as usize;
        self.v[x] = kk;
        ProcessorAction::NextInstruction
    }

    /// Add immediate: `v[x] := v[x] + kk` with 8-bit wraparound; no flag is
    /// written.
    pub fn op_7xkk(&mut self, nibbles: (u8, u8, u8, u8)) -> (r: ProcessorAction)
        requires
            old(self)@.wf(),
            nibbles.1 < 16,
        ensures
            final(self)@ == set_v(
                old(self)@,
                nibbles.1 as int,
                vstd::wrapping::u8_specs::wrapping_add(
                    old(self)@.v[nibbles.1 as int],
                    kk_of(nibbles.2, nibbles.3),
                ),
            ),
            r == ProcessorAction::NextInstruction,
    {
        let (_, kk, x, _, _) = process_nibbles(nibbles);
        let vx = self.v[x];
        let result = vx.wrapping_add(kk);
        self.v[x] = result;
        ProcessorAction::NextInstruction
    }

    /// Skip the next instruction if registers `v[x]` and `v[y]` differ.
    pub fn op_9xy0(&mut self, nibbles: (u8, u8, u8, u8)) -> (r: ProcessorAction)
        requires
            old(self)@.wf(),
            nibbles.1 < 16,
            nibbles.2 < 16,
        ensures
            final(self)@ == old(self)@,
            r == skip_if_spec(
                old(self)@.v[nibbles.1 as int] != old(self)@.v[nibbles.2 as int],
            ),
    {
        let (_, _, x, y, _) = process_nibbles(nibbles);
        let vx = self.v[x];
        let vy = self.v[y];
        skip_if(vx != vy)
    }

    /// Load the index register: `I := nnn`.
    pub fn op_Annn(&mut self, nibbles: (u8, u8, u8, u8)) -> (r: ProcessorAction)
        ensures
            final(self)@ == crate::model::set_i(
                old(self)@,
                nnn_of(nibbles.1, nibbles.2, nibbles.3),
            ),
            r == ProcessorAction::NextInstruction,
    {
        let (nnn, _, _, _, _) = process_nibbles(nibbles);
        self.i = nnn;
        ProcessorAction::NextInstruction
    }

    /// Return from a subroutine: the address at the top of the stack is the
    /// jump target, and the stack pointer moves down.
    pub fn op_00EE(&mut self) -> (r: ProcessorAction)
        requires
            old(self)@.wf(),
            1 <= old(self).sp < STACK_SZ,
        ensures
            final(self)@ == crate::model::ret_pop(old(self)@),
            r == ProcessorAction::JumpInstruction(old(self)@.stack[old(self).sp as int]),
    {
        let addr = self.stack[self.sp as usize];
        self.sp = self.sp - 1;
        ProcessorAction::JumpInstruction(addr)
    }

    /// Call a subroutine: the stack pointer moves up, the current program
    /// counter is pushed, and `nnn` is the jump target.
    pub fn op_2nnn(&mut self, nibbles: (u8, u8, u8, u8)) -> (r: ProcessorAction)
        requires
            old(self)@.wf(),
            old(self).sp + 1 < STACK_SZ,
        ensures
            final(self)@ == crate::model::call_push(old(self)@),
            r == ProcessorAction::JumpInstruction(nnn_of(nibbles.1, nibbles.2, nibbles.3)),
    {
        let (nnn, _, _, _, _) = process_nibbles(nibbles);
        self.sp = self.sp + 1;
        let top = self.sp as usize;
        self.stack[top] = self.pc;
        ProcessorAction::JumpInstruction(nnn)
    }

    /// Register copy: `v[x] := v[y]`.
    pub fn op_8xy0(&mut self, nibbles: (u8, u8, u8, u8)) -> (r: ProcessorAction)
        requires
            old(self)@.wf(),
            nibbles.1 < 16,
            nibbles.2 < 16,
        ensures
            final(self)@ == set_v(old(self)@, nibbles.1 as int, old(self)@.v[nibbles.2 as int]),
            r == ProcessorAction::NextInstruction,
    {
        let (_, _, x, y, _) = process_nibbles(nibbles);
        let vy = self.v[y];
        self.v[x] = vy;
        ProcessorAction::NextInstruction
    }

    /// Bitwise OR: `v[x] := v[y] | v[x]`.
    pub fn op_8xy1(&mut self, nibbles: (u8, u8, u8, u8)) -> (r: ProcessorAction)
        requires
            old(self)@.wf(),
            nibbles.1 < 16,
            nibbles.2 < 16,
        ensures
            final(self)@ == set_v(
                old(self)@,
                nibbles.1 as int,
                old(self)@.v[nibbles.2 as int] | old(self)@.v[nibbles.1 as int],
            ),
            r == ProcessorAction::NextInstruction,
    {
        let (_, _, x, y, _) = process_nibbles(nibbles);
        let vx = self.v[x];
        let vy = self.v[y];
        self.v[x] = vy | vx;
        ProcessorAction::NextInstruction
    }

    /// Bitwise AND: `v[x] := v[y] & v[x]`.
    pub fn op_8xy2(&mut self, nibbles: (u8, u8, u8, u8)) -> (r: ProcessorAction)
        requires
            old(self)@.wf(),
            nibbles.1 < 16,
            nibbles.2 < 16,
        ensures
            final(self)@ == set_v(
                old(self)@,
                nibbles.1 as int,
                old(self)@.v[nibbles.2 as int] & old(self)@.v[nibbles.1 as int],
            ),
            r == ProcessorAction::NextInstruction,
    {
        let (_, _, x, y, _) = process_nibbles(nibbles);
        let vx = self.v[x];
        let vy = self.v[y];
        self.v[x] = vy & vx;
        ProcessorAction::NextInstruction
    }

    /// Bitwise exclusive OR: `v[x] := v[y] ^ v[x]`.
    pub fn op_8xy3(&mut self, nibbles: (u8, u8, u8, u8)) -> (r: ProcessorAction)
        requires
            old(self)@.wf(),
            nibbles.1 < 16,
            nibbles.2 < 16,
        ensures
            final(self)@ == set_v(
                old(self)@,
                nibbles.1 as int,
                old(self)@.v[nibbles.2 as int] ^ old(self)@.v[nibbles.1 as int],
            ),
            r == ProcessorAction::NextInstruction,
    {
        let (_, _, x, y, _) = process_nibbles(nibbles);
        let vx = self.v[x];
        let vy = self.v[y];
        self.v[x] = vy ^ vx;
        ProcessorAction::NextInstruction
    }

    /// Add with carry: the flag register reports whether the 16-bit sum
    /// exceeded 0x100, then `v[x]` takes the low 8 bits of the sum.
    pub fn op_8xy4(&mut self, nibbles: (u8, u8, u8, u8)) -> (r: ProcessorAction)
        requires
            old(self)@.wf(),
            nibbles.1 < 16,
            nibbles.2 < 16,
        ensures
            final(self)@ == ({
                let sum = old(self)@.v[nibbles.1 as int] + old(self)@.v[nibbles.2 as int];
                let carry: u8 = if sum > 0x100 { 1 } else { 0 };
                set_v(set_v(old(self)@, 15, carry), nibbles.1 as int, (sum % 256) as u8)
            }),
            r == ProcessorAction::NextInstruction,
    {
        let (_, _, x, y, _) = process_nibbles(nibbles);
        let vx = self.v[x] as u16;
        let vy = self.v[y] as u16;
        let result = vx + vy;
        let carry = result > 0x100;
        self.v[0xF] = if carry { 1 } else { 0 };
        let low = (result & 0xFF) as u8;
        proof {
            assert(low == (result % 256) as u8) by (bit_vector)
                requires
                    low == (result & 0xFF) as u8,
            ;
        }
        self.v[x] = low;
        ProcessorAction::NextInstruction
    }

    /// Subtract with borrow: the flag register reports `v[x] > v[y]`, then
    /// `v[x] := v[x] - v[y]` with 8-bit wraparound.
    pub fn op_8xy5(&mut self, nibbles: (u8, u8, u8, u8)) -> (r: ProcessorAction)
        requires
            old(self)@.wf(),
            nibbles.1 < 16,
            nibbles.2 < 16,
        ensures
            final(self)@ == ({
                let vx = old(self)@.v[nibbles.1 as int];
                let vy = old(self)@.v[nibbles.2 as int];
                let borrow: u8 = if vx > vy { 1 } else { 0 };
                set_v(
                    set_v(old(self)@, 15, borrow),
                    nibbles.1 as int,
                    vstd::wrapping::u8_specs::wrapping_sub(vx, vy),
                )
            }),
            r == ProcessorAction::NextInstruction,
    {
        let (_, _, x, y, _) = process_nibbles(nibbles);
        let vx = self.v[x];
        let vy = self.v[y];
        let vf = vx > vy;
        let result = vx.wrapping_sub(vy);
        self.v[0xF] = if vf { 1 } else { 0 };
        proof {
            assert(result & 0xFF == result) by (bit_vector);
        }
        self.v[x] = result & 0xFF;
        ProcessorAction::NextInstruction
    }

    /// Shift right: the flag register takes the least significant bit of
    /// `v[x]`, then `v[x]` is shifted right by two bit positions.
    pub fn op_8xy6(&mut self, nibbles: (u8, u8, u8, u8)) -> (r: ProcessorAction)
        requires
            old(self)@.wf(),
            nibbles.1 < 16,
        ensures
            final(self)@ == ({
                let vx = old(self)@.v[nibbles.1 as int];
                let lsb: u8 = if vx & 1 == 1 { 1 } else { 0 };
                set_v(set_v(old(self)@, 15, lsb), nibbles.1 as int, vx >> 2)
            }),
            r == ProcessorAction::NextInstruction,
    {
        let (_, _, x, _, _) = process_nibbles(nibbles);
        let vx = self.v[x];
        let vf = (vx & 0b1) == 0b1;
        let result = vx >> 2;
        self.v[0xF] = if vf { 1 } else { 0 };
        proof {
            assert(result & 0xFF == result) by (bit_vector);
        }
        self.v[x] = result & 0xFF;
        ProcessorAction::NextInstruction
    }

    /// Reverse subtract with borrow: the flag register reports
    /// `v[y] > v[x]`, then `v[x] := v[y] - v[x]` with 8-bit wraparound.
    pub fn op_8xy7(&mut self, nibbles: (u8, u8, u8, u8)) -> (r: ProcessorAction)
        requires
            old(self)@.wf(),
            nibbles.1 < 16,
            nibbles.2 < 16,
        ensures
            final(self)@ == ({
                let vx = old(self)@.v[nibbles.1 as int];
                let vy = old(self)@.v[nibbles.2 as int];
                let borrow: u8 = if vy > vx { 1 } else { 0 };
                set_v(
                    set_v(old(self)@, 15, borrow),
                    nibbles.1 as int,
                    vstd::wrapping::u8_specs::wrapping_sub(vy, vx),
                )
            }),
            r == ProcessorAction::NextInstruction,
    {
        let (_, _, x, y, _) = process_nibbles(nibbles);
        let vx = self.v[x];
        let vy = self.v[y];
        let vf = vy > vx;
        let result = vy.wrapping_sub(vx);
        self.v[0xF] = if vf { 1 } else { 0 };
        proof {
            assert(result & 0xFF == result) by (bit_vector);
        }
        self.v[x] = result & 0xFF;
        ProcessorAction::NextInstruction
    }

    /// Shift left: the flag register takes the most significant bit of
    /// `v[x]`, then `v[x]` is doubled with 8-bit wraparound.
    pub fn op_8xyE(&mut self, nibbles: (u8, u8, u8, u8)) -> (r: ProcessorAction)
        requires
            old(self)@.wf(),
            nibbles.1 < 16,
        ensures
            final(self)@ == ({
                let vx = old(self)@.v[nibbles.1 as int];
                let msb: u8 = if (vx >> 7) & 1 == 1 { 1 } else { 0 };
                set_v(
                    set_v(old(self)@, 15, msb),
                    nibbles.1 as int,
                    vstd::wrapping::u8_specs::wrapping_mul(vx, 2),
                )
            }),
            r == ProcessorAction::NextInstruction,
    {
        let (_, _, x, _, _) = process_nibbles(nibbles);
        let vx = self.v[x];
        let vf = (vx >> 7) & 1 == 1;
        let result = vx.wrapping_mul(2);
        self.v[0xF] = if vf { 1 } else { 0 };
        self.v[x] = result;
        ProcessorAction::NextInstruction
    }

    /// Jump with offset as this machine defines it: the sum `nnn + v[0]` is
    /// written into the index register, not the program counter, and
    /// execution advances one instruction.
    pub fn op_Bnnn(&mut self, nibbles: (u8, u8, u8, u8)) -> (r: ProcessorAction)
        requires
            old(self)@.wf(),
            nibbles.1 < 16,
        ensures
            final(self)@ == crate::model::set_i(
                old(self)@,
                (nnn_of(nibbles.1, nibbles.2, nibbles.3) + old(self)@.v[0]) as u16,
            ),
            r == ProcessorAction::NextInstruction,
    {
        let (nnn, _, _, _, _) = process_nibbles(nibbles);
        proof {
            let n1 = nibbles.1;
            let n2 = nibbles.2;
            let n3 = nibbles.3;
            assert(nnn_of(n1, n2, n3) <= 0xFFF) by (bit_vector)
                requires
                    n1 < 16,
            ;
        }
        self.i = nnn + (self.v[0] as u16);
        ProcessorAction::NextInstruction
    }

    /// Advance the index register: `I := I + v[x]`.
    pub fn op_Fx1E(&mut self, nibbles: (u8, u8, u8, u8)) -> (r: ProcessorAction)
        requires
            old(self)@.wf(),
            nibbles.1 < 16,
            old(self).i + old(self)@.v[nibbles.1 as int] <= u16::MAX,
        ensures
            final(self)@ == crate::model::set_i(
                old(self)@,
                (old(self).i + old(self)@.v[nibbles.1 as int]) as u16,
            ),
            r == ProcessorAction::NextInstruction,
    {
        let (_, _, x, _, _) = process_nibbles(nibbles);
        self.i = self.i + (self.v[x] as u16);
        ProcessorAction::NextInstruction
    }

    /// Read the delay timer into `v[x]`.
    pub fn op_Fx07(&mut self, nibbles: (u8, u8, u8, u8)) -> (r: ProcessorAction)
        requires
            old(self)@.wf(),
            nibbles.1 < 16,
        ensures
            final(self)@ == set_v(old(self)@, nibbles.1 as int, old(self).delay_timer),
            r == ProcessorAction::NextInstruction,
    {
        let (_, _, x, _, _) = process_nibbles(nibbles);
        let t = self.delay_timer;
        self.v[x] = t;
        ProcessorAction::NextInstruction
    }

    /// Write `v[x]` into the delay timer.
    pub fn op_Fx15(&mut self, nibbles: (u8, u8, u8, u8)) -> (r: ProcessorAction)
        requires
            old(self)@.wf(),
            nibbles.1 < 16,
        ensures
            final(self)@ == (MachineView {
                delay_timer: old(self)@.v[nibbles.1 as int],
                ..old(self)@
            }),
            r == ProcessorAction::NextInstruction,
    {
        let (_, _, x, _, _) = process_nibbles(nibbles);
        self.delay_timer = self.v[x];
        ProcessorAction::NextInstruction
    }

    /// Write `v[x]` into the sound timer.
    pub fn op_Fx18(&mut self, nibbles: (u8, u8, u8, u8)) -> (r: ProcessorAction)
        requires
            old(self)@.wf(),
            nibbles.1 < 16,
        ensures
            final(self)@ == (MachineView {
                sound_timer: old(self)@.v[nibbles.1 as int],
                ..old(self)@
            }),
            r == ProcessorAction::NextInstruction,
    {
        let (_, _, x, _, _) = process_nibbles(nibbles);
        self.sound_timer = self.v[x];
        ProcessorAction::NextInstruction
    }

    /// Random byte AND mask: `v[x] := kk & b` for a byte `b` drawn from the
    /// machine's random source.
    pub fn op_Cxkk(&mut self, nibbles: (u8, u8, u8, u8)) -> (r: ProcessorAction)
        requires
            old(self)@.wf(),
            nibbles.1 < 16,
        ensures
            exists|b: u8|
                final(self)@ == set_v(
                    old(self)@,
                    nibbles.1 as int,
                    kk_of(nibbles.2, nibbles.3) & b,
                ),
            r == ProcessorAction::NextInstruction,
    {
        let rnd = random_byte();
        self.op_Cxkk_seeded(nibbles, rnd)
    }

    /// The deterministic part of `Cxkk`: `v[x] := kk & rnd` for a caller-
    /// supplied byte `rnd`.
    pub fn op_Cxkk_seeded(&mut self, nibbles: (u8, u8, u8, u8), rnd: u8) -> (r: ProcessorAction)
        requires
            old(self)@.wf(),
            nibbles.1 < 16,
        ensures
            final(self)@ == set_v(
                old(self)@,
                nibbles.1 as int,
                kk_of(nibbles.2, nibbles.3) & rnd,
            ),
            r == ProcessorAction::NextInstruction,
    {
        let (_, kk, x, _, _) = process_nibbles(nibbles);
        self.v[x] = kk & rnd;
        ProcessorAction::NextInstruction
    }

    /// Store registers `v[0]` through `v[x]` inclusive into memory starting
    /// at the address in `I`.
    pub fn op_Fx55(&mut self, nibbles: (u8, u8, u8, u8)) -> (r: ProcessorAction)
        requires
            old(self)@.wf(),
            nibbles.1 < 16,
            old(self).i + nibbles.1 + 1 <= RAM_SZ,
        ensures
            final(self)@ == crate::model::store_regs(old(self)@, nibbles.1 as int),
            r == ProcessorAction::NextInstruction,
    {
        let (_, _, x, _, _) = process_nibbles(nibbles);
        let mut idx: usize = 0;
        while idx <= x
            invariant
                idx <= x + 1,
                x < 16,
                self@ == (MachineView { ram: self.ram@, ..old(self)@ }),
                self.ram@.len() == RAM_SZ,
                old(self)@.wf(),
                old(self).i + x + 1 <= RAM_SZ,
                forall|j: int|
                    old(self).i <= j < old(self).i + idx ==> self.ram@[j] == old(self)@.v[j
                        - old(self).i],
                forall|j: int|
                    0 <= j < RAM_SZ && !(old(self).i <= j < old(self).i + idx)
                        ==> self.ram@[j] == old(self)@.ram[j],
            decreases x + 1 - idx,
        {
            let vi = self.v[idx];
            let index = self.i as usize + idx;
            self.ram[index] = vi;
            idx = idx + 1;
        }
        proof {
            assert(self@.ram =~= crate::model::store_regs(old(self)@, x as int).ram);
            assert(self@ =~= crate::model::store_regs(old(self)@, x as int));
        }
        ProcessorAction::NextInstruction
    }

    /// Fill registers `v[0]` through `v[x]` inclusive from memory starting
    /// at the address in `I`.
    pub fn op_Fx65(&mut self, nibbles: (u8, u8, u8, u8)) -> (r: ProcessorAction)
        requires
            old(self)@.wf(),
            nibbles.1 < 16,
            old(self).i + nibbles.1 + 1 <= RAM_SZ,
        ensures
            final(self)@ == crate::model::load_regs(old(self)@, nibbles.1 as int),
            r == ProcessorAction::NextInstruction,
    {
        let (_, _, x, _, _) = process_nibbles(nibbles);
        let mut idx: usize = 0;
        while idx <= x
            invariant
                idx <= x + 1,
                x < 16,
                self@ == (MachineView { v: self.v@, ..old(self)@ }),
                self.v@.len() == V_SZ,
                old(self)@.wf(),
                old(self).i + x + 1 <= RAM_SZ,
                forall|j: int| 0 <= j < idx ==> self.v@[j] == old(self)@.ram[old(self).i + j],
                forall|j: int| idx <= j < V_SZ ==> self.v@[j] == old(self)@.v[j],
            decreases x + 1 - idx,
        {
            let index = idx + self.i as usize;
            let vi = self.ram[index];
            self.v[idx] = vi;
            idx = idx + 1;
        }
        proof {
            assert(self@.v =~= crate::model::load_regs(old(self)@, x as int).v);
            assert(self@ =~= crate::model::load_regs(old(self)@, x as int));
        }
        ProcessorAction::NextInstruction
    }

    /// Load a program image: bytes are copied into memory starting at the
    /// load address; bytes that would fall beyond the end of memory are
    /// silently dropped.
    pub fn load(&mut self, data: Vec<u8>)
        requires
            old(self)@.wf(),
        ensures
            final(self)@ == crate::model::load_image(old(self)@, data@),
    {
        let n = data.len();
        let mut idx: usize = 0;
        while idx < n && idx < RAM_SZ - LOAD_ADDR
            invariant
                idx <= n,
                n == data@.len(),
                idx <= RAM_SZ - LOAD_ADDR,
                self@ == (MachineView { ram: self.ram@, ..old(self)@ }),
                self.ram@.len() == RAM_SZ,
                forall|j: int|
                    LOAD_ADDR <= j < LOAD_ADDR + idx ==> self.ram@[j] == data@[j - LOAD_ADDR],
                forall|j: int|
                    0 <= j < RAM_SZ && !(LOAD_ADDR <= j < LOAD_ADDR + idx) ==> self.ram@[j]
                        == old(self)@.ram[j],
            decreases n - idx,
        {
            let byte = data[idx];
            self.ram[LOAD_ADDR + idx] = byte;
            idx = idx + 1;
        }
        proof {
            assert(self@.ram =~= crate::model::load_image(old(self)@, data@).ram);
            assert(self@ =~= crate::model::load_image(old(self)@, data@));
        }
    }

    /// Draw a sprite: `n` bytes of sprite data read from memory at `I` are
    /// XORed into the scratch buffer at `(v[x], v[y])`, wrapping around both
    /// display edges; register 15 accumulates a flag for every sprite bit
    /// that turns a set pixel off; the finished scratch buffer is published
    /// to the visible buffer.
    #[verifier::loop_isolation(false)]
    pub fn op_Dxyn(&mut self, nibbles: (u8, u8, u8, u8)) -> (r: ProcessorAction)
        requires
            old(self)@.wf(),
            nibbles.1 < 16,
            nibbles.2 < 16,
            old(self).i + nibbles.3 <= RAM_SZ,
        ensures
            final(self)@ == crate::model::draw_sprite(
                old(self)@,
                nibbles.1 as int,
                nibbles.2 as int,
                nibbles.3 as nat,
            ),
            r == ProcessorAction::NextInstruction,
    {
        let (_, _, x, y, n) = process_nibbles(nibbles);
        let vx = self.v[x] as usize;
        let vy = self.v[y] as usize;
        let i0 = self.i as usize;
        let width = self.width;
        let height = self.height;
        let total = self.cycle_buffer.len();
        proof {
            assert(total == width * height);
        }

        let mut row: usize = 0;
        while row < n
            invariant
                row <= n,
                self@ == (MachineView {
                    cycle_buffer: self.cycle_buffer@,
                    v: self.v@,
                    ..old(self)@
                }),
                self.cycle_buffer@.len() == old(self)@.cycle_buffer.len(),
                self.v@.len() == V_SZ,
                self.cycle_buffer@ == crate::model::draw_rows(
                    old(self)@.cycle_buffer,
                    old(self)@.v[15],
                    old(self)@.ram,
                    i0 as int,
                    vx as int,
                    vy as int,
                    width as int,
                    height as int,
                    row as nat,
                ).0,
                self.v@[15] == crate::model::draw_rows(
                    old(self)@.cycle_buffer,
                    old(self)@.v[15],
                    old(self)@.ram,
                    i0 as int,
                    vx as int,
                    vy as int,
                    width as int,
                    height as int,
                    row as nat,
                ).1,
                forall|k: int| 0 <= k < V_SZ && k != 15 ==> self.v@[k] == old(self)@.v[k],
            decreases n - row,
        {
            let jj = (row + vy) % height;
            let sprite = self.ram[i0 + row];
            let ghost buf0 = self.cycle_buffer@;
            let ghost f0 = self.v@[15];
            proof {
                assert((jj + 1) * width <= height * width) by (nonlinear_arith)
                    requires
                        jj + 1 <= height,
                        width >= 0,
                ;
            }
            let mut bit: usize = 0;
            while bit < 8
                invariant
                    bit <= 8,
                    self@ == (MachineView {
                        cycle_buffer: self.cycle_buffer@,
                        v: self.v@,
                        ..old(self)@
                    }),
                    self.cycle_buffer@.len() == old(self)@.cycle_buffer.len(),
                    self.v@.len() == V_SZ,
                    self.cycle_buffer@ == crate::model::draw_bits(
                        buf0,
                        f0,
                        sprite,
                        vx as int,
                        (jj * width) as int,
                        width as int,
                        bit as nat,
                    ).0,
                    self.v@[15] == crate::model::draw_bits(
                        buf0,
                        f0,
                        sprite,
                        vx as int,
                        (jj * width) as int,
                        width as int,
                        bit as nat,
                    ).1,
                    forall|k: int| 0 <= k < V_SZ && k != 15 ==> self.v@[k] == old(self)@.v[k],
                decreases 8 - bit,
            {
                let ii = (bit + vx) % width;
                let color = (self.ram[i0 + row] >> (7 - bit)) & 1;
                proof {
                    assert(jj * width + width == (jj + 1) * width) by (nonlinear_arith);
                    assert((jj + 1) * width <= height * width) by (nonlinear_arith)
                        requires
                            jj + 1 <= height,
                            width >= 0,
                    ;
                    assert(height * width == width * height) by (nonlinear_arith);
                }
                let idx = ii + jj * width;
                let oldpix = self.cycle_buffer[idx];
                let f = self.v[0xF];
                proof {
                    let sh = (7 - bit) as u8;
                    let ob: u8 = if oldpix { 1 } else { 0 };
                    assert(color == (sprite >> sh) & 1);
                    assert(f | 0 == f) by (bit_vector);
                    assert(color & ob == (if color == 1 && ob == 1 { 1u8 } else { 0u8 }))
                        by (bit_vector)
                        requires
                            color == (sprite >> sh) & 1,
                            ob == 0 || ob == 1,
                    ;
                }
                self.v[0xF] = f | (color & (if oldpix { 1 } else { 0 }));
                self.cycle_buffer[idx] = oldpix ^ (color == 1);
                bit = bit + 1;
            }
            row = row + 1;
        }
        self.pixels = self.cycle_buffer.clone();
        proof {
            let res = crate::model::draw_rows(
                old(self)@.cycle_buffer,
                old(self)@.v[15],
                old(self)@.ram,
                i0 as int,
                vx as int,
                vy as int,
                width as int,
                height as int,
                n as nat,
            );
            assert(self.pixels@ =~= self.cycle_buffer@);
            assert(self.v@ =~= old(self)@.v.update(15, res.1));
            assert(self@ =~= crate::model::draw_sprite(
                old(self)@,
                nibbles.1 as int,
                nibbles.2 as int,
                nibbles.3 as nat,
            ));
        }
        ProcessorAction::NextInstruction
    }

    /// Key-test instructions are documented for this opcode space but this
    /// machine leaves them without effect.
    pub fn op_Ex9E(&mut self, _nibbles: (u8, u8, u8, u8)) -> (r: ProcessorAction)
        ensures
            final(self)@ == old(self)@,
            r == ProcessorAction::NextInstruction,
    {
        ProcessorAction::NextInstruction
    }

    /// Key-test instructions are documented for this opcode space but this
    /// machine leaves them without effect.
    pub fn op_ExA1(&mut self, _nibbles: (u8, u8, u8, u8)) -> (r: ProcessorAction)
        ensures
            final(self)@ == old(self)@,
            r == ProcessorAction::NextInstruction,
    {
        ProcessorAction::NextInstruction
    }

    /// Wait-for-key is documented for this opcode but this machine leaves it
    /// without effect.
    pub fn op_Fx0A(&mut self, _nibbles: (u8, u8, u8, u8)) -> (r: ProcessorAction)
        ensures
            final(self)@ == old(self)@,
            r == ProcessorAction::NextInstruction,
    {
        ProcessorAction::NextInstruction
    }

    /// Digit-sprite lookup is documented for this opcode but this machine
    /// leaves it without effect.
    pub fn op_Fx29(&mut self, _nibbles: (u8, u8, u8, u8)) -> (r: ProcessorAction)
        ensures
            final(self)@ == old(self)@,
            r == ProcessorAction::NextInstruction,
    {
        ProcessorAction::NextInstruction
    }

    /// Decimal storage is documented for this opcode but this machine leaves
    /// it without effect.
    pub fn op_Fx33(&mut self, _nibbles: (u8, u8, u8, u8)) -> (r: ProcessorAction)
        ensures
            final(self)@ == old(self)@,
            r == ProcessorAction::NextInstruction,
    {
        ProcessorAction::NextInstruction
    }

    /// Reserved opcode outside the minimal instruction set; a no-op.
    pub fn op_00Cn(&mut self, _nibbles: (u8, u8, u8, u8)) -> (r: ProcessorAction)
        ensures
            final(self)@ == old(self)@,
            r == ProcessorAction::NextInstruction,
    {
        ProcessorAction::NextInstruction
    }

    /// Reserved opcode outside the minimal instruction set; a no-op.
    pub fn op_00FB(&mut self, _nibbles: (u8, u8, u8, u8)) -> (r: ProcessorAction)
        ensures
            final(self)@ == old(self)@,
            r == ProcessorAction::NextInstruction,
    {
        ProcessorAction::NextInstruction
    }

    /// Reserved opcode outside the minimal instruction set; a no-op.
    pub fn op_00FC(&mut self, _nibbles: (u8, u8, u8, u8)) -> (r: ProcessorAction)
        ensures
            final(self)@ == old(self)@,
            r == ProcessorAction::NextInstruction,
    {
        ProcessorAction::NextInstruction
    }

    /// Reserved opcode outside the minimal instruction set; a no-op.
    pub fn op_00FD(&mut self, _nibbles: (u8, u8, u8, u8)) -> (r: ProcessorAction)
        ensures
            final(self)@ == old(self)@,
            r == ProcessorAction::NextInstruction,
    {
        ProcessorAction::NextInstruction
    }

    /// Reserved opcode outside the minimal instruction set; a no-op.
    pub fn op_00FE(&mut self, _nibbles: (u8, u8, u8, u8)) -> (r: ProcessorAction)
        ensures
            final(self)@ == old(self)@,
            r == ProcessorAction::NextInstruction,
    {
        ProcessorAction::NextInstruction
    }

    /// Reserved opcode outside the minimal instruction set; a no-op.
    pub fn op_00FF(&mut self, _nibbles: (u8, u8, u8, u8)) -> (r: ProcessorAction)
        ensures
            final(self)@ == old(self)@,
            r == ProcessorAction::NextInstruction,
    {
        ProcessorAction::NextInstruction
    }

    /// A zero-height draw; a no-op on this machine.
    pub fn op_Dxy0(&mut self, _nibbles: (u8, u8, u8, u8)) -> (r: ProcessorAction)
        ensures
            final(self)@ == old(self)@,
            r == ProcessorAction::NextInstruction,
    {
        ProcessorAction::NextInstruction
    }

    /// Reserved opcode outside the minimal instruction set; a no-op.
    pub fn op_Fx30(&mut self, _nibbles: (u8, u8, u8, u8)) -> (r: ProcessorAction)
        ensures
            final(self)@ == old(self)@,
            r == ProcessorAction::NextInstruction,
    {
        ProcessorAction::NextInstruction
    }

    /// Reserved opcode outside the minimal instruction set; a no-op.
    pub fn op_Fx75(&mut self, _nibbles: (u8, u8, u8, u8)) -> (r: ProcessorAction)
        ensures
            final(self)@ == old(self)@,
            r == ProcessorAction::NextInstruction,
    {
        ProcessorAction::NextInstruction
    }

    /// Reserved opcode outside the minimal instruction set; a no-op.
    pub fn op_Fx85(&mut self, _nibbles: (u8, u8, u8, u8)) -> (r: ProcessorAction)
        ensures
            final(self)@ == old(self)@,
            r == ProcessorAction::NextInstruction,
    {
        ProcessorAction::NextInstruction
    }

    /// The instruction word fetched big-endian at the program counter.
    pub fn get_instruction(&self) -> (r: u16)
        requires
            self@.wf(),
            self.pc + 1 < RAM_SZ,
        ensures
            r == instr_of(self@),
    {
        let high_nibble = (self.ram[self.pc as usize] as u16) << 8;
        let low_nibble = self.ram[(self.pc + 1) as usize] as u16;
        high_nibble | low_nibble
    }

    /// One whole machine step: fetch the instruction at the program counter,
    /// decode it into nibbles, dispatch to the matching handler, then move
    /// the program counter as the returned action says. The step implements
    /// the transition function of the model for some byte from the random
    /// source.
    pub fn tick(&mut self)
        requires
            crate::model::tick_enabled(old(self)@),
        ensures
            exists|b: u8| final(self)@ == crate::model::tick_spec(old(self)@, b),
    {
        let op = self.get_instruction();
        let nibbles = (
            ((op & 0xF000) >> 12) as u8,
            ((op & 0x0F00) >> 8) as u8,
            ((op & 0x00F0) >> 4) as u8,
            (op & 0x000F) as u8,
        );
        proof {
            assert(nibbles == crate::model::nibbles_of(op));
            assert((op & 0xF000) >> 12 < 16 && (op & 0x0F00) >> 8 < 16 && (op & 0x00F0) >> 4
                < 16 && op & 0x000F < 16) by (bit_vector);
            let n1 = nibbles.1;
            let n2 = nibbles.2;
            let n3 = nibbles.3;
            assert(nnn_of(n1, n2, n3) <= 0xFFF) by (bit_vector)
                requires
                    n1 < 16,
            ;
        }

        let action = match nibbles {
            (0x0, 0x0, 0xF, 0xF) => self.op_00FF(nibbles),
            (0x0, 0x0, 0xE, 0x0) => self.op_00E0(),
            (0x0, 0x0, 0xE, 0xE) => self.op_00EE(),
            (0x1, _, _, _) => self.op_1nnn(nibbles),
            (0x2, _, _, _) => self.op_2nnn(nibbles),
            (0x3, _, _, _) => self.op_3xkk(nibbles),
            (0x4, _, _, _) => self.op_4xkk(nibbles),
            (0x5, _, _, _) => self.op_5xy0(nibbles),
            (0x6, _, _, _) => self.op_6xkk(nibbles),
            (0x7, _, _, _) => self.op_7xkk(nibbles),
            (0x8, _, _, 0x0) => self.op_8xy0(nibbles),
            (0x8, _, _, 0x1) => self.op_8xy1(nibbles),
            (0x8, _, _, 0x2) => self.op_8xy2(nibbles),
            (0x8, _, _, 0x3) => self.op_8xy3(nibbles),
            (0x8, _, _, 0x4) => self.op_8xy4(nibbles),
            (0x8, _, _, 0x5) => self.op_8xy5(nibbles),
            (0x8, _, _, 0x6) => self.op_8xy6(nibbles),
            (0x8, _, _, 0x7) => self.op_8xy7(nibbles),
            (0x8, _, _, 0xE) => self.op_8xyE(nibbles),
            (0x9, _, _, 0x0) => self.op_9xy0(nibbles),
            (0xA, _, _, _) => self.op_Annn(nibbles),
            (0xB, _, _, _) => self.op_Bnnn(nibbles),
            (0xC, _, _, _) => self.op_Cxkk(nibbles),
            (0xD, _, _, 0x0) => self.op_Dxy0(nibbles),
            (0xD, _, _, _) => self.op_Dxyn(nibbles),
            (0xE, _, 0x9, 0x1) => self.op_Ex9E(nibbles),
            (0xE, _, 0xA, 0x1) => self.op_ExA1(nibbles),
            (0xF, _, 0x0, 0x7) => self.op_Fx07(nibbles),
            (0xF, _, 0x0, 0xA) => self.op_Fx0A(nibbles),
            (0xF, _, 0x1, 0x5) => self.op_Fx15(nibbles),
            (0xF, _, 0x1, 0x8) => self.op_Fx18(nibbles),
            (0xF, _, 0x1, 0xE) => self.op_Fx1E(nibbles),
            (0xF, _, 0x2, 0x9) => self.op_Fx29(nibbles),
            (0xF, _, 0x3, 0x3) => self.op_Fx33(nibbles),
            (0xF, _, 0x5, 0x5) => self.op_Fx55(nibbles),
            (0xF, _, 0x6, 0x5) => self.op_Fx65(nibbles),
            (0x0, 0x0, 0xC, _) => self.op_00Cn(nibbles),
            (0x0, 0x0, 0xF, 0xB) => self.op_00FB(nibbles),
            (0x0, 0x0, 0xF, 0xC) => self.op_00FC(nibbles),
            (0x0, 0x0, 0xF, 0xD) => self.op_00FD(nibbles),
            (0x0, 0x0, 0xF, 0xE) => self.op_00FE(nibbles),
            (0xF, _, 0x3, 0x0) => self.op_Fx30(nibbles),
            (0xF, _, 0x7, 0x5) => self.op_Fx75(nibbles),
            (0xF, _, 0x8, 0x5) => self.op_Fx85(nibbles),
            _ => ProcessorAction::NextInstruction,
        };
        let ghost mid = self@;

        match action {
            ProcessorAction::NextInstruction => self.pc = self.pc + 2,
            ProcessorAction::SkipInstruction => self.pc = self.pc + 4,
            ProcessorAction::JumpInstruction(j) => self.pc = j + 2,
        }

        proof {
            let m0 = old(self)@;
            let nib = crate::model::nibbles_of(instr_of(m0));
            if nib.0 == 0xC {
                let b = choose|b: u8|
                    mid == set_v(m0, nib.1 as int, kk_of(nib.2, nib.3) & b);
                assert(self@ == crate::model::tick_spec(m0, b));
            } else {
                assert(self@ == crate::model::tick_spec(m0, 0u8));
            }
        }
    }
}

} // verus!

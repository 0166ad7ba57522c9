//! A bare memory-and-register file, without the display.
//!
//! [`Memory`] bundles the storage a CHIP-8 interpreter reads and writes —
//! memory, registers, stack, timers and keypad — for callers that drive the
//! fetch themselves.

use vstd::prelude::*;

use crate::model::{KEYS_SZ, LOAD_ADDR, RAM_SZ, STACK_SZ, V_SZ};

verus! {

/// The storage of a CHIP-8 interpreter: memory, return stack, registers,
/// pointer registers, timers and keypad.
pub struct Memory {
    /// Addressable memory; always [`RAM_SZ`] bytes.
    pub ram: Vec<u8>,
    /// Return-address stack; always [`STACK_SZ`] slots.
    pub stack: Vec<u16>,
    /// The sixteen general-purpose registers.
    pub v: Vec<u8>,
    /// The index register `I`.
    pub i: u16,
    /// The program counter.
    pub pc: u16,
    /// The stack pointer.
    pub sp: u16,
    /// The delay timer.
    pub delay_timer: u8,
    /// The sound timer.
    pub sound_timer: u8,
    /// One pressed/released flag per hexadecimal key.
    pub keypad: Vec<bool>,
}

impl Memory {
    /// Well-formedness: every fixed container has its architectural size.
    pub open spec fn wf(self) -> bool {
        &&& self.ram@.len() == RAM_SZ
        &&& self.stack@.len() == STACK_SZ
        &&& self.v@.len() == V_SZ
        &&& self.keypad@.len() == KEYS_SZ
    }

    /// Fresh storage: everything zeroed, the program counter at the load
    /// address.
    pub fn new() -> (r: Memory)
        ensures
            r.wf(),
            r.ram@ == Seq::new(RAM_SZ as nat, |j: int| 0u8),
            r.stack@ == Seq::new(STACK_SZ as nat, |j: int| 0u16),
            r.v@ == Seq::new(V_SZ as nat, |j: int| 0u8),
            r.keypad@ == Seq::new(KEYS_SZ as nat, |j: int| false),
            r.i == 0,
            r.pc == LOAD_ADDR as u16,
            r.sp == 0,
            r.delay_timer == 0,
            r.sound_timer == 0,
    {
        let m = Memory {
            ram: vec![0u8; RAM_SZ],
            stack: vec![0u16; STACK_SZ],
            v: vec![0u8; V_SZ],
            i: 0,
            pc: 0x200,
            sp: 0,
            delay_timer: 0,
            sound_timer: 0,
            keypad: vec![false; KEYS_SZ],
        };
        proof {
            assert(m.ram@ =~= Seq::new(RAM_SZ as nat, |j: int| 0u8));
            assert(m.stack@ =~= Seq::new(STACK_SZ as nat, |j: int| 0u16));
            assert(m.v@ =~= Seq::new(V_SZ as nat, |j: int| 0u8));
            assert(m.keypad@ =~= Seq::new(KEYS_SZ as nat, |j: int| false));
        }
        m
    }

    /// The instruction word fetched big-endian at the program counter.
    pub fn get_instruction(&self) -> (r: u16)
        requires
            self.wf(),
            self.pc + 1 < RAM_SZ,
        ensures
            r == ((self.ram@[self.pc as int] as u16) << 8) | (self.ram@[self.pc as int
                + 1] as u16),
    {
        let high_nibble = (self.ram[self.pc as usize] as u16) << 8;
        let low_nibble = self.ram[(self.pc + 1) as usize] as u16;
        high_nibble | low_nibble
    }
}

} // verus!

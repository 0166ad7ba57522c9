//! The mathematical model of the CHIP-8 machine.
//!
//! [`MachineView`] is the ghost image of the executable machine state: every
//! register file and buffer becomes a `Seq`, every scalar keeps its width.
//! The spec functions in this module state, over that view, what each opcode
//! family does and what one whole fetch/decode/execute step does
//! ([`tick_spec`]); the executable handlers are proved against them.

use vstd::prelude::*;
use vstd::wrapping::u8_specs;

use crate::processor::ProcessorAction;

verus! {

/// Size of the machine's addressable memory in bytes.
pub const RAM_SZ: usize = 4096;
/// Number of return-address slots on the call stack.
pub const STACK_SZ: usize = 16;
/// Number of keypad keys.
pub const KEYS_SZ: usize = 16;
/// Number of general-purpose registers.
pub const V_SZ: usize = 16;
/// Address at which a loaded program image starts.
pub const LOAD_ADDR: usize = 0x200;

/// Ghost image of the machine state: one field per executable field, with
/// the containers abstracted to sequences.
#[verifier::ext_equal]
pub ghost struct MachineView {
    pub pixels: Seq<bool>,
    pub cycle_buffer: Seq<bool>,
    pub ram: Seq<u8>,
    pub stack: Seq<u16>,
    pub v: Seq<u8>,
    pub i: u16,
    pub pc: u16,
    pub sp: u16,
    pub delay_timer: u8,
    pub sound_timer: u8,
    pub keypad: Seq<bool>,
    pub width: usize,
    pub height: usize,
}

impl MachineView {
    /// Well-formedness: the fixed containers have their architectural sizes
    /// and the two display buffers both cover a `width` by `height` grid.
    pub open spec fn wf(self) -> bool {
        &&& self.ram.len() == RAM_SZ
        &&& self.stack.len() == STACK_SZ
        &&& self.v.len() == V_SZ
        &&& self.keypad.len() == KEYS_SZ
        &&& self.pixels.len() == self.width * self.height
        &&& self.cycle_buffer.len() == self.width * self.height
        &&& self.width >= 1
        &&& self.height >= 1
    }
}

/// The machine state as it is created: memory, registers, stack, timers and
/// keypad all zeroed, both display buffers off, and the program counter at
/// the load address.
pub open spec fn initial(width: usize, height: usize) -> MachineView {
    MachineView {
        pixels: Seq::new((width * height) as nat, |j: int| false),
        cycle_buffer: Seq::new((width * height) as nat, |j: int| false),
        ram: Seq::new(RAM_SZ as nat, |j: int| 0u8),
        stack: Seq::new(STACK_SZ as nat, |j: int| 0u16),
        v: Seq::new(V_SZ as nat, |j: int| 0u8),
        i: 0,
        pc: LOAD_ADDR as u16,
        sp: 0,
        delay_timer: 0,
        sound_timer: 0,
        keypad: Seq::new(KEYS_SZ as nat, |j: int| false),
        width,
        height,
    }
}

/// The four nibbles of an instruction word, high to low.
pub open spec fn nibbles_of(op: u16) -> (u8, u8, u8, u8) {
    (
        ((op & 0xF000) >> 12) as u8,
        ((op & 0x0F00) >> 8) as u8,
        ((op & 0x00F0) >> 4) as u8,
        (op & 0x000F) as u8,
    )
}

/// The 12-bit address operand assembled from the three low nibbles.
pub open spec fn nnn_of(n1: u8, n2: u8, n3: u8) -> u16 {
    (((n1 as u16) << 8) | ((n2 as u16) << 4)) | (n3 as u16)
}

/// The 8-bit immediate operand assembled from the two low nibbles.
pub open spec fn kk_of(n2: u8, n3: u8) -> u8 {
    (n2 << 4) | n3
}

/// The instruction word fetched big-endian at the program counter.
pub open spec fn instr_of(m: MachineView) -> u16 {
    ((m.ram[m.pc as int] as u16) << 8) | (m.ram[m.pc as int + 1] as u16)
}

/// Register write: `v[x] := val`, everything else unchanged.
pub open spec fn set_v(m: MachineView, x: int, val: u8) -> MachineView {
    MachineView { v: m.v.update(x, val), ..m }
}

/// Index-register write: `I := val`.
pub open spec fn set_i(m: MachineView, val: u16) -> MachineView {
    MachineView { i: val, ..m }
}

/// `00E0`: every pixel of the scratch buffer is turned off, and the result
/// is published to the visible buffer.
pub open spec fn clear_display(m: MachineView) -> MachineView {
    MachineView {
        cycle_buffer: Seq::new(m.cycle_buffer.len(), |j: int| false),
        pixels: Seq::new(m.cycle_buffer.len(), |j: int| false),
        ..m
    }
}

/// `2nnn`: the stack pointer moves up and the current program counter is
/// stored in the newly current slot.
pub open spec fn call_push(m: MachineView) -> MachineView {
    MachineView {
        sp: (m.sp + 1) as u16,
        stack: m.stack.update(m.sp as int + 1, m.pc),
        ..m
    }
}

/// `00EE`: the stack pointer moves down; the popped address is the slot it
/// pointed at before the pop.
pub open spec fn ret_pop(m: MachineView) -> MachineView {
    MachineView { sp: (m.sp - 1) as u16, ..m }
}

/// `Fx55`: registers `v[0]` through `v[x]` inclusive are copied into memory
/// starting at address `I`.
pub open spec fn store_regs(m: MachineView, x: int) -> MachineView {
    MachineView {
        ram: Seq::new(
            m.ram.len(),
            |j: int| if m.i <= j <= m.i + x { m.v[j - m.i] } else { m.ram[j] },
        ),
        ..m
    }
}

/// `Fx65`: registers `v[0]` through `v[x]` inclusive are filled from memory
/// starting at address `I`.
pub open spec fn load_regs(m: MachineView, x: int) -> MachineView {
    MachineView {
        v: Seq::new(
            m.v.len(),
            |j: int| if 0 <= j <= x { m.ram[m.i + j] } else { m.v[j] },
        ),
        ..m
    }
}

/// Loading a program image: bytes are copied into memory starting at
/// [`LOAD_ADDR`]; bytes that would fall beyond the end of memory are dropped.
pub open spec fn load_image(m: MachineView, data: Seq<u8>) -> MachineView {
    MachineView {
        ram: Seq::new(
            m.ram.len(),
            |j: int| if LOAD_ADDR <= j < LOAD_ADDR + data.len() {
                data[j - LOAD_ADDR]
            } else {
                m.ram[j]
            },
        ),
        ..m
    }
}

/// Whether the sprite byte `sprite` has its bit for column offset `bit` set;
/// bit 0 is the most significant bit of the byte.
pub open spec fn sprite_bit(sprite: u8, bit: int) -> bool {
    (sprite >> ((7 - bit) as u8)) & 1 == 1
}

/// The scratch buffer and collision flag after the first `bits` bits of one
/// sprite byte have been XORed in, left to right. `row_base` is the buffer
/// index of column 0 of the target row; columns wrap modulo `width`. The
/// flag accumulates, by bitwise OR of 1, every bit that turns a set pixel
/// off, reading the buffer as it stands when that bit is applied.
pub open spec fn draw_bits(
    buf: Seq<bool>,
    flag: u8,
    sprite: u8,
    vx: int,
    row_base: int,
    width: int,
    bits: nat,
) -> (Seq<bool>, u8)
    decreases bits,
{
    if bits == 0 {
        (buf, flag)
    } else {
        let prev = draw_bits(buf, flag, sprite, vx, row_base, width, (bits - 1) as nat);
        let bit = bits - 1;
        let idx = row_base + (vx + bit) % width;
        let on = sprite_bit(sprite, bit);
        (
            prev.0.update(idx, prev.0[idx] ^ on),
            if on && prev.0[idx] { prev.1 | 1 } else { prev.1 },
        )
    }
}

/// The scratch buffer and collision flag after the first `rows` sprite bytes,
/// read from memory at `i`, have been drawn at `(vx, vy)`; rows wrap modulo
/// `height`, and within each row the eight bits are drawn by [`draw_bits`].
pub open spec fn draw_rows(
    buf: Seq<bool>,
    flag: u8,
    ram: Seq<u8>,
    i: int,
    vx: int,
    vy: int,
    width: int,
    height: int,
    rows: nat,
) -> (Seq<bool>, u8)
    decreases rows,
{
    if rows == 0 {
        (buf, flag)
    } else {
        let prev = draw_rows(buf, flag, ram, i, vx, vy, width, height, (rows - 1) as nat);
        let r = rows - 1;
        let row_base = ((vy + r) % height) * width;
        draw_bits(prev.0, prev.1, ram[i + r], vx, row_base, width, 8)
    }
}

/// Whether the first `bits` bits of one sprite byte toggle the buffer
/// position `p` an odd number of times.
pub open spec fn bit_toggle(
    sprite: u8,
    vx: int,
    row_base: int,
    width: int,
    bits: nat,
    p: int,
) -> bool
    decreases bits,
{
    if bits == 0 {
        false
    } else {
        let bit = bits - 1;
        let idx = row_base + (vx + bit) % width;
        bit_toggle(sprite, vx, row_base, width, (bits - 1) as nat, p) ^ (sprite_bit(sprite, bit)
            && idx == p)
    }
}

/// Whether the first `rows` sprite bytes toggle the buffer position `p` an
/// odd number of times.
pub open spec fn row_toggle(
    ram: Seq<u8>,
    i: int,
    vx: int,
    vy: int,
    width: int,
    height: int,
    rows: nat,
    p: int,
) -> bool
    decreases rows,
{
    if rows == 0 {
        false
    } else {
        let r = rows - 1;
        let row_base = ((vy + r) % height) * width;
        row_toggle(ram, i, vx, vy, width, height, (rows - 1) as nat, p) ^ bit_toggle(
            ram[i + r],
            vx,
            row_base,
            width,
            8,
            p,
        )
    }
}

/// `Dxyn`: `n` sprite bytes from memory at `I` are XORed into the scratch
/// buffer at `(v[x], v[y])` with wraparound; register 15 accumulates the
/// collision flag; the finished scratch buffer is published to the visible
/// buffer.
pub open spec fn draw_sprite(m: MachineView, x: int, y: int, n: nat) -> MachineView {
    let res = draw_rows(
        m.cycle_buffer,
        m.v[15],
        m.ram,
        m.i as int,
        m.v[x] as int,
        m.v[y] as int,
        m.width as int,
        m.height as int,
        n,
    );
    MachineView {
        cycle_buffer: res.0,
        pixels: res.0,
        v: m.v.update(15, res.1),
        ..m
    }
}

/// The program-counter action a comparison-skip instruction returns.
pub open spec fn skip_if_spec(c: bool) -> ProcessorAction {
    if c {
        ProcessorAction::SkipInstruction
    } else {
        ProcessorAction::NextInstruction
    }
}

/// How the dispatcher moves the program counter once a handler has returned:
/// one instruction on, two instructions on, or two bytes past a jump target.
pub open spec fn apply_action(m: MachineView, a: ProcessorAction) -> MachineView {
    match a {
        ProcessorAction::NextInstruction => MachineView { pc: (m.pc + 2) as u16, ..m },
        ProcessorAction::SkipInstruction => MachineView { pc: (m.pc + 4) as u16, ..m },
        ProcessorAction::JumpInstruction(j) => MachineView { pc: (j + 2) as u16, ..m },
    }
}

/// The machine state and program-counter action produced by dispatching the
/// nibble tuple `nib`. Opcode patterns outside the implemented set leave the
/// state unchanged and advance one instruction. `rnd` is the byte the random
/// source handed the `Cxkk` handler; every other opcode ignores it.
pub open spec fn dispatch_spec(m: MachineView, nib: (u8, u8, u8, u8), rnd: u8) -> (
    MachineView,
    ProcessorAction,
) {
    let nnn = nnn_of(nib.1, nib.2, nib.3);
    let kk = kk_of(nib.2, nib.3);
    let x = nib.1 as int;
    let y = nib.2 as int;
    if nib == (0x0u8, 0x0u8, 0xEu8, 0x0u8) {
        (clear_display(m), ProcessorAction::NextInstruction)
    } else if nib == (0x0u8, 0x0u8, 0xEu8, 0xEu8) {
        (ret_pop(m), ProcessorAction::JumpInstruction(m.stack[m.sp as int]))
    } else if nib.0 == 0x1 {
        (m, ProcessorAction::JumpInstruction(nnn))
    } else if nib.0 == 0x2 {
        (call_push(m), ProcessorAction::JumpInstruction(nnn))
    } else if nib.0 == 0x3 {
        (m, skip_if_spec(m.v[x] == kk))
    } else if nib.0 == 0x4 {
        (m, skip_if_spec(m.v[x] != kk))
    } else if nib.0 == 0x5 {
        (m, skip_if_spec(m.v[x] == m.v[y]))
    } else if nib.0 == 0x6 {
        (set_v(m, x, kk), ProcessorAction::NextInstruction)
    } else if nib.0 == 0x7 {
        (set_v(m, x, u8_specs::wrapping_add(m.v[x], kk)), ProcessorAction::NextInstruction)
    } else if nib.0 == 0x8 && nib.3 == 0x0 {
        (set_v(m, x, m.v[y]), ProcessorAction::NextInstruction)
    } else if nib.0 == 0x8 && nib.3 == 0x1 {
        (set_v(m, x, m.v[y] | m.v[x]), ProcessorAction::NextInstruction)
    } else if nib.0 == 0x8 && nib.3 == 0x2 {
        (set_v(m, x, m.v[y] & m.v[x]), ProcessorAction::NextInstruction)
    } else if nib.0 == 0x8 && nib.3 == 0x3 {
        (set_v(m, x, m.v[y] ^ m.v[x]), ProcessorAction::NextInstruction)
    } else if nib.0 == 0x8 && nib.3 == 0x4 {
        let sum = m.v[x] + m.v[y];
        let carry: u8 = if sum > 0x100 { 1 } else { 0 };
        (
            set_v(set_v(m, 15, carry), x, (sum % 256) as u8),
            ProcessorAction::NextInstruction,
        )
    } else if nib.0 == 0x8 && nib.3 == 0x5 {
        let borrow: u8 = if m.v[x] > m.v[y] { 1 } else { 0 };
        let diff = u8_specs::wrapping_sub(m.v[x], m.v[y]);
        (
            set_v(set_v(m, 15, borrow), x, diff),
            ProcessorAction::NextInstruction,
        )
    } else if nib.0 == 0x8 && nib.3 == 0x6 {
        let lsb: u8 = if m.v[x] & 1 == 1 { 1 } else { 0 };
        (
            set_v(set_v(m, 15, lsb), x, m.v[x] >> 2),
            ProcessorAction::NextInstruction,
        )
    } else if nib.0 == 0x8 && nib.3 == 0x7 {
        let borrow: u8 = if m.v[y] > m.v[x] { 1 } else { 0 };
        let diff = u8_specs::wrapping_sub(m.v[y], m.v[x]);
        (
            set_v(set_v(m, 15, borrow), x, diff),
            ProcessorAction::NextInstruction,
        )
    } else if nib.0 == 0x8 && nib.3 == 0xE {
        let msb: u8 = if (m.v[x] >> 7) & 1 == 1 { 1 } else { 0 };
        (
            set_v(set_v(m, 15, msb), x, u8_specs::wrapping_mul(m.v[x], 2)),
            ProcessorAction::NextInstruction,
        )
    } else if nib.0 == 0x9 && nib.3 == 0x0 {
        (m, skip_if_spec(m.v[x] != m.v[y]))
    } else if nib.0 == 0xA {
        (set_i(m, nnn), ProcessorAction::NextInstruction)
    } else if nib.0 == 0xB {
        (set_i(m, (nnn + m.v[0]) as u16), ProcessorAction::NextInstruction)
    } else if nib.0 == 0xC {
        (set_v(m, x, kk & rnd), ProcessorAction::NextInstruction)
    } else if nib.0 == 0xD && nib.3 == 0x0 {
        (m, ProcessorAction::NextInstruction)
    } else if nib.0 == 0xD {
        (draw_sprite(m, x, y, nib.3 as nat), ProcessorAction::NextInstruction)
    } else if nib.0 == 0xF && nib.2 == 0x0 && nib.3 == 0x7 {
        (set_v(m, x, m.delay_timer), ProcessorAction::NextInstruction)
    } else if nib.0 == 0xF && nib.2 == 0x1 && nib.3 == 0x5 {
        (MachineView { delay_timer: m.v[x], ..m }, ProcessorAction::NextInstruction)
    } else if nib.0 == 0xF && nib.2 == 0x1 && nib.3 == 0x8 {
        (MachineView { sound_timer: m.v[x], ..m }, ProcessorAction::NextInstruction)
    } else if nib.0 == 0xF && nib.2 == 0x1 && nib.3 == 0xE {
        (set_i(m, (m.i + m.v[x]) as u16), ProcessorAction::NextInstruction)
    } else if nib.0 == 0xF && nib.2 == 0x5 && nib.3 == 0x5 {
        (store_regs(m, x), ProcessorAction::NextInstruction)
    } else if nib.0 == 0xF && nib.2 == 0x6 && nib.3 == 0x5 {
        (load_regs(m, x), ProcessorAction::NextInstruction)
    } else {
        (m, ProcessorAction::NextInstruction)
    }
}

/// When one fetch/decode/execute step is free of contract violations: the
/// fetch stays inside memory, the call stack is not pushed past its bound or
/// popped past its bottom, sprite reads stay inside memory, register block
/// transfers stay inside memory, and no program-counter or index-register
/// arithmetic overflows.
pub open spec fn tick_enabled(m: MachineView) -> bool {
    let nib = nibbles_of(instr_of(m));
    let x = nib.1 as int;
    &&& m.wf()
    &&& m.pc + 1 < RAM_SZ
    &&& (nib == (0x0u8, 0x0u8, 0xEu8, 0xEu8) ==> {
        &&& 1 <= m.sp < STACK_SZ
        &&& m.stack[m.sp as int] + 2 <= u16::MAX
    })
    &&& (nib.0 == 0x2 ==> m.sp + 1 < STACK_SZ)
    &&& (nib.0 == 0xD && nib.3 != 0x0 ==> m.i + nib.3 <= RAM_SZ)
    &&& (nib.0 == 0xF && nib.2 == 0x1 && nib.3 == 0xE ==> m.i + m.v[x] <= u16::MAX)
    &&& (nib.0 == 0xF && (nib.2 == 0x5 || nib.2 == 0x6) && nib.3 == 0x5 ==> m.i + nib.1 + 1
        <= RAM_SZ)
}

/// One whole machine step: fetch at the program counter, decode, dispatch,
/// then move the program counter as the returned action says. `rnd` is the
/// byte the random source would hand a `Cxkk` instruction.
pub open spec fn tick_spec(m: MachineView, rnd: u8) -> MachineView {
    let res = dispatch_spec(m, nibbles_of(instr_of(m)), rnd);
    apply_action(res.0, res.1)
}

} // verus!

//! Laws of the instruction set, stated and proved over the model.
//!
//! Each proof function here records a property that relates several
//! operations of the machine: decoding against re-encoding, loads against
//! adds, draws against repeated draws, calls against returns, and skips
//! against the following fetch.

use vstd::prelude::*;
use vstd::arithmetic::div_mod::{
    lemma_fundamental_div_mod_converse_mod, lemma_mod_bound, lemma_mod_equivalence,
    lemma_small_mod,
};

use crate::model::{
    bit_toggle, dispatch_spec, draw_bits, draw_rows, draw_sprite, instr_of, kk_of, nibbles_of,
    nnn_of, row_toggle, sprite_bit, tick_spec, MachineView, RAM_SZ, STACK_SZ,
};

verus! {

/// Law: decoding an instruction word and re-encoding the operand fields
/// reconstructs the original word and its nibble tuple: `nnn` and `kk` are
/// the low 12 and 8 bits, the nibbles are recoverable from `nnn` and `kk`,
/// and the high nibble together with `nnn` reassembles the word.
pub proof fn lemma_decode_round_trip(op: u16)
    by (bit_vector)
    ensures
        ({
            let nib = nibbles_of(op);
            let nnn = nnn_of(nib.1, nib.2, nib.3);
            let kk = kk_of(nib.2, nib.3);
            &&& nnn == op & 0x0FFF
            &&& kk == (op & 0x00FF) as u8
            &&& (((nib.0 as u16) << 12) | nnn) == op
            &&& ((nnn >> 8) & 0xF) as u8 == nib.1
            &&& kk >> 4 == nib.2
            &&& kk & 0xF == nib.3
        }),
{
}

/// Law: a `6xkk` load followed by a `7x01` add leaves the target register
/// at `kk + 1` modulo 256; in particular 255 wraps to 0.
pub proof fn lemma_load_then_increment(m: MachineView, x: u8, k2: u8, k3: u8)
    requires
        m.wf(),
        x < 16,
    ensures
        ({
            let m1 = dispatch_spec(m, (0x6u8, x, k2, k3), 0).0;
            let m2 = dispatch_spec(m1, (0x7u8, x, 0u8, 1u8), 0).0;
            m2.v[x as int] == (kk_of(k2, k3) + 1) % 256
        }),
{
    let kk = kk_of(k2, k3);
    let m1 = dispatch_spec(m, (0x6u8, x, k2, k3), 0).0;
    assert(kk_of(0u8, 1u8) == 1) by (bit_vector);
    assert(m1.v[x as int] == kk);
    if kk == 255 {
        assert((kk + 1) % 256 == 0);
    } else {
        lemma_small_mod((kk + 1) as nat, 256);
    }
}

/// The scratch buffer after drawing keeps its length, and each of its
/// pixels is the old pixel XORed with the toggle parity of the first
/// `bits` sprite bits at that position.
proof fn lemma_draw_bits_pointwise(
    buf: Seq<bool>,
    flag: u8,
    sprite: u8,
    vx: int,
    row_base: int,
    width: int,
    bits: nat,
)
    requires
        width >= 1,
        0 <= row_base,
        row_base + width <= buf.len(),
    ensures
        draw_bits(buf, flag, sprite, vx, row_base, width, bits).0.len() == buf.len(),
        forall|p: int|
            0 <= p < buf.len() ==> draw_bits(buf, flag, sprite, vx, row_base, width, bits).0[p]
                == (buf[p] ^ bit_toggle(sprite, vx, row_base, width, bits, p)),
    decreases bits,
{
    if bits > 0 {
        lemma_draw_bits_pointwise(buf, flag, sprite, vx, row_base, width, (bits - 1) as nat);
        lemma_mod_bound(vx + (bits - 1), width);
    }
}

/// The scratch buffer after drawing `rows` sprite bytes keeps its length,
/// and each of its pixels is the old pixel XORed with the toggle parity of
/// the whole sprite at that position.
proof fn lemma_draw_rows_pointwise(
    buf: Seq<bool>,
    flag: u8,
    ram: Seq<u8>,
    i: int,
    vx: int,
    vy: int,
    width: int,
    height: int,
    rows: nat,
)
    requires
        width >= 1,
        height >= 1,
        buf.len() == width * height,
    ensures
        draw_rows(buf, flag, ram, i, vx, vy, width, height, rows).0.len() == buf.len(),
        forall|p: int|
            0 <= p < buf.len() ==> draw_rows(buf, flag, ram, i, vx, vy, width, height, rows).0[p]
                == (buf[p] ^ row_toggle(ram, i, vx, vy, width, height, rows, p)),
    decreases rows,
{
    if rows > 0 {
        let r = rows - 1;
        lemma_draw_rows_pointwise(buf, flag, ram, i, vx, vy, width, height, (rows - 1) as nat);
        let prev = draw_rows(buf, flag, ram, i, vx, vy, width, height, (rows - 1) as nat);
        lemma_mod_bound(vy + r, height);
        let base = ((vy + r) % height) * width;
        assert(0 <= base && base + width <= width * height) by (nonlinear_arith)
            requires
                width >= 1,
                height >= 1,
                0 <= (vy + r) % height < height,
                base == ((vy + r) % height) * width,
        ;
        lemma_draw_bits_pointwise(prev.0, prev.1, ram[i + r], vx, base, width, 8);
    }
}

/// Law: drawing the same sprite twice with identical operands restores the
/// display: every pixel the first draw set, the second clears, and every
/// pixel the first cleared, the second sets back. The flag registers are
/// excluded from the operands, so the sprite may not be addressed through
/// register 15.
pub proof fn lemma_draw_twice_restores(m: MachineView, x: int, y: int, n: nat)
    requires
        m.wf(),
        0 <= x < 15,
        0 <= y < 15,
    ensures
        draw_sprite(draw_sprite(m, x, y, n), x, y, n).cycle_buffer == m.cycle_buffer,
        draw_sprite(draw_sprite(m, x, y, n), x, y, n).pixels == m.cycle_buffer,
{
    let m1 = draw_sprite(m, x, y, n);
    let m2 = draw_sprite(m1, x, y, n);
    let w = m.width as int;
    let h = m.height as int;
    lemma_draw_rows_pointwise(
        m.cycle_buffer,
        m.v[15],
        m.ram,
        m.i as int,
        m.v[x] as int,
        m.v[y] as int,
        w,
        h,
        n,
    );
    assert(m1.v[x] == m.v[x] && m1.v[y] == m.v[y]);
    lemma_draw_rows_pointwise(
        m1.cycle_buffer,
        m1.v[15],
        m1.ram,
        m1.i as int,
        m1.v[x] as int,
        m1.v[y] as int,
        w,
        h,
        n,
    );
    assert(m2.cycle_buffer =~= m.cycle_buffer);
}

/// Two offsets less than the modulus apart land on different residues.
proof fn lemma_mod_distinct(v: int, a: int, b: int, m: int)
    requires
        0 <= a < b,
        b - a < m,
    ensures
        (v + a) % m != (v + b) % m,
{
    let d = b - a;
    lemma_mod_equivalence(v + b, v + a, m);
    lemma_fundamental_div_mod_converse_mod(d, m, 0, d);
}

/// With a display at least eight pixels wide, the toggle parity of one
/// sprite byte at a position is exactly: some bit of the byte is set and
/// lands there. No two bits land on the same position, so the parity never
/// cancels.
proof fn lemma_bit_toggle_value(sprite: u8, vx: int, base: int, w: int, bits: nat, p: int)
    requires
        w >= 8,
        bits <= 8,
    ensures
        bit_toggle(sprite, vx, base, w, bits, p) == exists|b: int|
            0 <= b < bits && p == base + (vx + b) % w && sprite_bit(sprite, b),
    decreases bits,
{
    if bits > 0 {
        let bit = bits - 1;
        lemma_bit_toggle_value(sprite, vx, base, w, (bits - 1) as nat, p);
        let idx = base + (vx + bit) % w;
        if sprite_bit(sprite, bit) && idx == p {
            assert forall|b: int| 0 <= b < bits - 1 implies p != base + #[trigger] ((vx + b) % w) by {
                lemma_mod_distinct(vx, b, bit, w);
            }
            assert(0 <= bit < bits && p == base + (vx + bit) % w && sprite_bit(sprite, bit));
        } else {
            if exists|b: int| 0 <= b < bits && p == base + (vx + b) % w && sprite_bit(sprite, b) {
                let b = choose|b: int|
                    0 <= b < bits && p == base + (vx + b) % w && sprite_bit(sprite, b);
                assert(b != bit);
                assert(0 <= b < bits - 1 && p == base + (vx + b) % w && sprite_bit(sprite, b));
            }
        }
    }
}

/// With a display at least eight pixels wide, drawing one sprite byte turns
/// the collision flag on exactly when some set bit of the byte lands on a
/// pixel that was set before the byte was drawn.
proof fn lemma_draw_bits_flag(
    buf: Seq<bool>,
    flag: u8,
    sprite: u8,
    vx: int,
    base: int,
    w: int,
    bits: nat,
)
    requires
        w >= 8,
        bits <= 8,
        0 <= base,
        base + w <= buf.len(),
    ensures
        draw_bits(buf, flag, sprite, vx, base, w, bits).1 == (if (exists|b: int|
            0 <= b < bits && sprite_bit(sprite, b) && buf[base + (vx + b) % w]) {
            flag | 1
        } else {
            flag
        }),
    decreases bits,
{
    if bits > 0 {
        let bit = bits - 1;
        lemma_draw_bits_flag(buf, flag, sprite, vx, base, w, (bits - 1) as nat);
        lemma_draw_bits_pointwise(buf, flag, sprite, vx, base, w, (bits - 1) as nat);
        let prev = draw_bits(buf, flag, sprite, vx, base, w, (bits - 1) as nat);
        lemma_mod_bound(vx + bit, w);
        let idx = base + (vx + bit) % w;
        lemma_bit_toggle_value(sprite, vx, base, w, (bits - 1) as nat, idx);
        assert forall|b: int| 0 <= b < bits - 1 implies idx != base + #[trigger] ((vx + b) % w) by {
            lemma_mod_distinct(vx, b, bit, w);
        }
        assert(!bit_toggle(sprite, vx, base, w, (bits - 1) as nat, idx));
        assert(prev.0[idx] == buf[idx]);
        assert(flag | 1 | 1 == flag | 1) by (bit_vector);
        if sprite_bit(sprite, bit) && buf[idx] {
            assert(0 <= bit < bits && sprite_bit(sprite, bit) && buf[base + (vx + bit) % w]);
        } else {
            if exists|b: int|
                0 <= b < bits && sprite_bit(sprite, b) && buf[base + (vx + b) % w] {
                let b = choose|b: int|
                    0 <= b < bits && sprite_bit(sprite, b) && buf[base + (vx + b) % w];
                assert(b != bit);
                assert(0 <= b < bits - 1 && sprite_bit(sprite, b) && buf[base + (vx + b) % w]);
            }
        }
    }
}

/// Positions inside one row's stretch of the buffer lie outside every other
/// row's stretch.
proof fn lemma_distinct_base_disjoint(q1: int, q2: int, w: int, p: int)
    requires
        q1 != q2,
        w >= 1,
        q1 * w <= p < q1 * w + w,
    ensures
        !(q2 * w <= p < q2 * w + w),
{
    if q1 < q2 {
        assert(q1 * w + w <= q2 * w) by (nonlinear_arith)
            requires
                q1 < q2,
                w >= 1,
        ;
    } else {
        assert(q2 * w + w <= q1 * w) by (nonlinear_arith)
            requires
                q2 < q1,
                w >= 1,
        ;
    }
}

/// A position no processed row lands on keeps toggle parity off.
proof fn lemma_row_toggle_off(
    ram: Seq<u8>,
    i: int,
    vx: int,
    vy: int,
    w: int,
    h: int,
    rows: nat,
    p: int,
)
    requires
        w >= 8,
        h >= 1,
        forall|r: int|
            0 <= r < rows ==> !(#[trigger] ((vy + r) % h) * w <= p < ((vy + r) % h) * w + w),
    ensures
        !row_toggle(ram, i, vx, vy, w, h, rows, p),
    decreases rows,
{
    if rows > 0 {
        let r = rows - 1;
        lemma_row_toggle_off(ram, i, vx, vy, w, h, (rows - 1) as nat, p);
        let base = ((vy + r) % h) * w;
        lemma_bit_toggle_value(ram[i + r], vx, base, w, 8, p);
        assert forall|b: int| 0 <= b < 8 implies p != base + #[trigger] ((vx + b) % w) by {
            lemma_mod_bound(vx + b, w);
        }
    }
}

/// Inside one row's stretch of the buffer, the whole sprite's toggle parity
/// is that row's own toggle parity: with distinct residues, the other rows
/// never reach the stretch.
proof fn lemma_row_toggle_in_row(
    ram: Seq<u8>,
    i: int,
    vx: int,
    vy: int,
    w: int,
    h: int,
    n: nat,
    r: int,
    p: int,
)
    requires
        w >= 8,
        h >= 1,
        n <= h,
        0 <= r < n,
        ((vy + r) % h) * w <= p < ((vy + r) % h) * w + w,
    ensures
        row_toggle(ram, i, vx, vy, w, h, n, p) == bit_toggle(
            ram[i + r],
            vx,
            ((vy + r) % h) * w,
            w,
            8,
            p,
        ),
    decreases n,
{
    let last = n - 1;
    let base_r = ((vy + r) % h) * w;
    if r == last {
        assert forall|rr: int|
            0 <= rr < n - 1 implies !(#[trigger] ((vy + rr) % h) * w <= p < ((vy + rr) % h) * w + w) by {
            lemma_mod_distinct(vy, rr, r, h);
            lemma_mod_bound(vy + rr, h);
            lemma_mod_bound(vy + r, h);
            lemma_distinct_base_disjoint((vy + r) % h, (vy + rr) % h, w, p);
        }
        lemma_row_toggle_off(ram, i, vx, vy, w, h, (n - 1) as nat, p);
    } else {
        lemma_row_toggle_in_row(ram, i, vx, vy, w, h, (n - 1) as nat, r, p);
        let base_last = ((vy + last) % h) * w;
        lemma_mod_distinct(vy, r, last, h);
        lemma_mod_bound(vy + last, h);
        lemma_mod_bound(vy + r, h);
        lemma_distinct_base_disjoint((vy + r) % h, (vy + last) % h, w, p);
        lemma_bit_toggle_value(ram[i + last], vx, base_last, w, 8, p);
        assert forall|b: int| 0 <= b < 8 implies p != base_last + #[trigger] ((vx + b) % w) by {
            lemma_mod_bound(vx + b, w);
        }
        assert(!bit_toggle(ram[i + last], vx, base_last, w, 8, p));
    }
}

/// The stretch of one row lies inside the buffer.
proof fn lemma_row_base_bounds(vy: int, r: int, w: int, h: int)
    requires
        w >= 1,
        h >= 1,
    ensures
        0 <= ((vy + r) % h) * w,
        ((vy + r) % h) * w + w <= w * h,
{
    lemma_mod_bound(vy + r, h);
    let q = (vy + r) % h;
    assert(0 <= q * w && q * w + w <= w * h) by (nonlinear_arith)
        requires
            0 <= q < h,
            w >= 1,
    ;
}

/// On an all-off display, a draw without self-overlap (display at least
/// eight wide, at most `height` sprite rows) detects no collision.
proof fn lemma_draw_rows_flag_blank(
    buf: Seq<bool>,
    flag: u8,
    ram: Seq<u8>,
    i: int,
    vx: int,
    vy: int,
    w: int,
    h: int,
    n: nat,
)
    requires
        w >= 8,
        h >= 1,
        n <= h,
        buf.len() == w * h,
        forall|p: int| 0 <= p < buf.len() ==> !buf[p],
    ensures
        draw_rows(buf, flag, ram, i, vx, vy, w, h, n).1 == flag,
    decreases n,
{
    if n > 0 {
        let r = n - 1;
        lemma_draw_rows_flag_blank(buf, flag, ram, i, vx, vy, w, h, (n - 1) as nat);
        lemma_draw_rows_pointwise(buf, flag, ram, i, vx, vy, w, h, (n - 1) as nat);
        let prev = draw_rows(buf, flag, ram, i, vx, vy, w, h, (n - 1) as nat);
        let base = ((vy + r) % h) * w;
        lemma_row_base_bounds(vy, r, w, h);
        lemma_draw_bits_flag(prev.0, prev.1, ram[i + r], vx, base, w, 8);
        assert forall|b: int| 0 <= b < 8 implies !prev.0[base + #[trigger] ((vx + b) % w)] by {
            lemma_mod_bound(vx + b, w);
            let pos = base + (vx + b) % w;
            assert(0 <= pos < buf.len());
            assert(!buf[pos]);
            assert forall|rr: int|
                0 <= rr < n - 1 implies !(#[trigger] ((vy + rr) % h) * w <= pos < ((vy + rr) % h) * w
                + w) by {
                lemma_mod_distinct(vy, rr, r, h);
                lemma_mod_bound(vy + rr, h);
                lemma_mod_bound(vy + r, h);
                lemma_distinct_base_disjoint((vy + r) % h, (vy + rr) % h, w, pos);
            }
            lemma_row_toggle_off(ram, i, vx, vy, w, h, (n - 1) as nat, pos);
        }
    }
}

/// Running the second of two identical draws over the buffer the first one
/// left behind turns the collision flag on exactly when some processed row
/// has a set sprite bit.
proof fn lemma_second_draw_flag(
    buf: Seq<bool>,
    ram: Seq<u8>,
    i: int,
    vx: int,
    vy: int,
    w: int,
    h: int,
    n: nat,
    k: nat,
)
    requires
        w >= 8,
        h >= 1,
        k <= n <= h,
        buf.len() == w * h,
        forall|p: int| 0 <= p < buf.len() ==> !buf[p],
    ensures
        ({
            let b1 = draw_rows(buf, 0, ram, i, vx, vy, w, h, n).0;
            draw_rows(b1, 0, ram, i, vx, vy, w, h, k).1 == (if (exists|r: int, b: int|
                0 <= r < k && 0 <= b < 8 && #[trigger] sprite_bit(ram[i + r], b)) {
                1u8
            } else {
                0u8
            })
        }),
    decreases k,
{
    if k > 0 {
        let r = k - 1;
        let b1 = draw_rows(buf, 0, ram, i, vx, vy, w, h, n).0;
        lemma_draw_rows_pointwise(buf, 0, ram, i, vx, vy, w, h, n);
        lemma_second_draw_flag(buf, ram, i, vx, vy, w, h, n, (k - 1) as nat);
        lemma_draw_rows_pointwise(b1, 0, ram, i, vx, vy, w, h, (k - 1) as nat);
        let prev = draw_rows(b1, 0, ram, i, vx, vy, w, h, (k - 1) as nat);
        let base = ((vy + r) % h) * w;
        lemma_row_base_bounds(vy, r, w, h);
        lemma_draw_bits_flag(prev.0, prev.1, ram[i + r], vx, base, w, 8);
        let pf = prev.1;
        assert(pf | 1 == 1) by (bit_vector)
            requires
                pf == 0 || pf == 1,
        ;
        assert forall|b: int| 0 <= b < 8 implies prev.0[base + #[trigger] ((vx + b) % w)] == sprite_bit(
            ram[i + r],
            b,
        ) by {
            lemma_mod_bound(vx + b, w);
            let pos = base + (vx + b) % w;
            assert forall|rr: int|
                0 <= rr < k - 1 implies !(#[trigger] ((vy + rr) % h) * w <= pos < ((vy + rr) % h) * w
                + w) by {
                lemma_mod_distinct(vy, rr, r, h);
                lemma_mod_bound(vy + rr, h);
                lemma_mod_bound(vy + r, h);
                lemma_distinct_base_disjoint((vy + r) % h, (vy + rr) % h, w, pos);
            }
            assert(0 <= pos < buf.len());
            assert(!buf[pos]);
            lemma_row_toggle_off(ram, i, vx, vy, w, h, (k - 1) as nat, pos);
            assert(prev.0[pos] == b1[pos]);
            lemma_row_toggle_in_row(ram, i, vx, vy, w, h, n, r, pos);
            lemma_bit_toggle_value(ram[i + r], vx, base, w, 8, pos);
            assert forall|bb: int| 0 <= bb < 8 && bb != b implies pos != base + #[trigger] ((vx + bb)
                % w) by {
                if bb < b {
                    lemma_mod_distinct(vx, bb, b, w);
                } else {
                    lemma_mod_distinct(vx, b, bb, w);
                }
            }
            assert(bit_toggle(ram[i + r], vx, base, w, 8, pos) == sprite_bit(ram[i + r], b));
        }
        if exists|b: int| 0 <= b < 8 && #[trigger] sprite_bit(ram[i + r], b) {
            let b = choose|b: int| 0 <= b < 8 && #[trigger] sprite_bit(ram[i + r], b);
            assert(prev.0[base + (vx + b) % w]);
            assert(0 <= b < 8 && #[trigger] sprite_bit(ram[i + r], b) && prev.0[base + (vx + b) % w]);
        } else {
            if exists|b: int|
                0 <= b < 8 && #[trigger] sprite_bit(ram[i + r], b) && prev.0[base + (vx + b) % w] {
                let b = choose|b: int|
                    0 <= b < 8 && #[trigger] sprite_bit(ram[i + r], b) && prev.0[base + (vx + b) % w];
                assert(false);
            }
        }
        if exists|rr: int, b: int| 0 <= rr < k - 1 && 0 <= b < 8 && #[trigger] sprite_bit(ram[i + rr], b) {
            let (rr, b) = choose|rr: int, b: int|
                0 <= rr < k - 1 && 0 <= b < 8 && #[trigger] sprite_bit(ram[i + rr], b);
            assert(0 <= rr < k && 0 <= b < 8 && sprite_bit(ram[i + rr], b));
        }
        if exists|rr: int, b: int| 0 <= rr < k && 0 <= b < 8 && #[trigger] sprite_bit(ram[i + rr], b) {
            let (rr, b) = choose|rr: int, b: int|
                0 <= rr < k && 0 <= b < 8 && #[trigger] sprite_bit(ram[i + rr], b);
            if rr == r {
                assert(exists|b: int| 0 <= b < 8 && #[trigger] sprite_bit(ram[i + r], b));
            } else {
                assert(0 <= rr < k - 1 && 0 <= b < 8 && sprite_bit(ram[i + rr], b));
            }
        }
    }
}

/// Law: on an all-off display with the flag register clear, a draw without
/// self-overlap (display at least eight pixels wide, at most `height` sprite
/// rows, operands not in the flag register) reports no collision, and
/// repeating the identical draw reports a collision exactly when the sprite
/// has any set bit.
pub proof fn lemma_draw_twice_collides(m: MachineView, x: int, y: int, n: nat)
    requires
        m.wf(),
        0 <= x < 15,
        0 <= y < 15,
        m.width >= 8,
        n <= m.height,
        m.v[15] == 0,
        forall|p: int| 0 <= p < m.cycle_buffer.len() ==> !m.cycle_buffer[p],
    ensures
        draw_sprite(m, x, y, n).v[15] == 0,
        draw_sprite(draw_sprite(m, x, y, n), x, y, n).v[15] == (if (exists|r: int, b: int|
            0 <= r < n && 0 <= b < 8 && #[trigger] sprite_bit(m.ram[m.i + r], b)) {
            1u8
        } else {
            0u8
        }),
{
    let w = m.width as int;
    let h = m.height as int;
    let m1 = draw_sprite(m, x, y, n);
    lemma_draw_rows_flag_blank(
        m.cycle_buffer,
        m.v[15],
        m.ram,
        m.i as int,
        m.v[x] as int,
        m.v[y] as int,
        w,
        h,
        n,
    );
    assert(m1.v[15] == 0);
    assert(m1.v[x] == m.v[x] && m1.v[y] == m.v[y]);
    lemma_second_draw_flag(
        m.cycle_buffer,
        m.ram,
        m.i as int,
        m.v[x] as int,
        m.v[y] as int,
        w,
        h,
        n,
        n,
    );
}

/// Law: a `2nnn` call followed by the `00EE` return it reaches leaves the
/// program counter at the instruction immediately after the call.
pub proof fn lemma_call_return_round_trip(m: MachineView, b1: u8, b2: u8)
    requires
        m.wf(),
        m.pc + 1 < RAM_SZ,
        nibbles_of(instr_of(m)).0 == 0x2,
        m.sp + 1 < STACK_SZ,
        ({
            let nib = nibbles_of(instr_of(m));
            let nnn = nnn_of(nib.1, nib.2, nib.3);
            &&& nnn + 3 < RAM_SZ
            &&& m.ram[nnn + 2] == 0x00
            &&& m.ram[nnn + 3] == 0xEE
        }),
    ensures
        tick_spec(tick_spec(m, b1), b2).pc == m.pc + 2,
{
    let op = instr_of(m);
    let nib = nibbles_of(op);
    let n1 = nib.1;
    let n2 = nib.2;
    let n3 = nib.3;
    let nnn = nnn_of(n1, n2, n3);
    assert((op & 0x0F00) >> 8 < 16 && (op & 0x00F0) >> 4 < 16 && op & 0x000F < 16)
        by (bit_vector);
    assert(nnn_of(n1, n2, n3) <= 0xFFF) by (bit_vector)
        requires
            n1 < 16,
    ;
    let m1 = tick_spec(m, b1);
    assert(m1.pc == nnn + 2);
    assert(m1.stack[m1.sp as int] == m.pc);
    assert(instr_of(m1) == ((0x00u8 as u16) << 8) | (0xEEu8 as u16));
    assert(nibbles_of(((0x00u8 as u16) << 8) | (0xEEu8 as u16)) == (0x0u8, 0x0u8, 0xEu8, 0xEu8))
        by (bit_vector);
    let m2 = tick_spec(m1, b2);
    assert(m2.pc == (m.pc + 2) as u16);
}

/// Law: when a `3xkk` skip matches, the program counter moves four bytes on,
/// so the next fetch reads the second instruction after the skip.
pub proof fn lemma_skip_advances_two_instructions(m: MachineView, b: u8)
    requires
        m.wf(),
        nibbles_of(instr_of(m)).0 == 0x3,
        m.v[nibbles_of(instr_of(m)).1 as int] == kk_of(
            nibbles_of(instr_of(m)).2,
            nibbles_of(instr_of(m)).3,
        ),
        m.pc + 4 <= u16::MAX,
    ensures
        tick_spec(m, b).pc == m.pc + 4,
{
}

} // verus!

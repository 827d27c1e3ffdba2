//! General properties of the instruction semantics, stated over the
//! spec-level model and proved once for all inputs.

use vstd::prelude::*;

use crate::decode::{lemma_decode_operands_in_range, spec_decode, Instr};
use crate::model::{
    fetch_ok, fetched, scan_key, sprite_row_bit, step_rel, ChipError, ChipState, FLAG_REG,
    MEM_SIZE, NUM_KEYS, STACK_DEPTH, VRAM_SIZE,
};

verus! {

/// Adding an immediate writes only its destination register: when the
/// destination is not the flag register, the flag register keeps its
/// value — the instruction has no flag output. (With the flag register
/// itself as destination it is the ordinary target and does change.)
pub proof fn lemma_add_imm_no_flag(s: ChipState, x: int, kk: u8)
    requires
        s.wf(),
        0 <= x < 16,
        x != FLAG_REG,
    ensures
        s.add_imm(x, kk).regs[FLAG_REG as int] == s.regs[FLAG_REG as int],
{
}

/// The register add sets the flag register to 1 iff the unsigned sum of
/// the two operand registers overflows 8 bits, else 0, for every operand
/// pair.
pub proof fn lemma_add_reg_carry(s: ChipState, x: int, y: int)
    requires
        s.wf(),
        0 <= x < 16,
        0 <= y < 16,
    ensures
        s.add_reg(x, y).regs[FLAG_REG as int] == (if s.regs[x] + s.regs[y] > 255 {
            1u8
        } else {
            0u8
        }),
{
}

/// A timer that has reached zero stays at zero under every further timer
/// tick: the per-cycle decrement saturates and never goes below zero.
pub proof fn lemma_timers_saturate(s: ChipState)
    ensures
        s.delay == 0 ==> s.tick_timers().delay == 0,
        s.sound == 0 ==> s.tick_timers().sound == 0,
        s.tick_timers().delay <= s.delay,
        s.tick_timers().sound <= s.sound,
{
}

/// If no latch byte below `k` is exactly 1, the key scan finds nothing.
pub proof fn lemma_scan_key_none(input: Seq<u8>, k: int)
    requires
        forall|i: int| 0 <= i < k ==> input[i] != 1,
    ensures
        scan_key(input, k) is None,
    decreases k,
{
    if k > 0 {
        lemma_scan_key_none(input, k - 1);
    }
}

/// If some latch byte below `k` is exactly 1, the key scan reports a key
/// index below `k` whose latch byte is 1.
pub proof fn lemma_scan_key_finds(input: Seq<u8>, k: int)
    requires
        exists|i: int| 0 <= i < k && input[i] == 1,
    ensures
        match scan_key(input, k) {
            Some(j) => 0 <= j < k && input[j] == 1,
            None => false,
        },
    decreases k,
{
    if k > 0 && input[k - 1] != 1 {
        lemma_scan_key_finds(input, k - 1);
    }
}

/// Across a whole cycle whose fetched instruction is wait-for-key and
/// during which no key is down, the program counter is unchanged in net
/// effect: the fetch advances it by two and the instruction rewinds it by
/// two, so the next fetch re-reads the same address.
pub proof fn lemma_wait_key_repeats(
    pre: ChipState,
    post: ChipState,
    r: Result<(), ChipError>,
    rnd: u8,
    x: usize,
)
    requires
        pre.wf(),
        fetch_ok(pre),
        spec_decode(fetched(pre)) == Instr::WaitKey(x),
        forall|i: int| 0 <= i < NUM_KEYS ==> pre.input[i] != 1,
        step_rel(pre, post, r, rnd),
    ensures
        r is Ok,
        post.pc == pre.pc,
{
    lemma_scan_key_none(pre.input, NUM_KEYS as int);
}

/// The first cycle a key is down, the same instruction completes
/// normally: the program counter advances over it and reg[x] takes a key
/// index whose latch byte is 1.
pub proof fn lemma_wait_key_advances(
    pre: ChipState,
    post: ChipState,
    r: Result<(), ChipError>,
    rnd: u8,
    x: usize,
)
    requires
        pre.wf(),
        fetch_ok(pre),
        spec_decode(fetched(pre)) == Instr::WaitKey(x),
        exists|i: int| 0 <= i < NUM_KEYS && pre.input[i] == 1,
        step_rel(pre, post, r, rnd),
    ensures
        r is Ok,
        post.pc == pre.pc + 2,
        0 <= post.regs[x as int] < NUM_KEYS,
        pre.input[post.regs[x as int] as int] == 1,
{
    lemma_decode_operands_in_range(fetched(pre));
    lemma_scan_key_finds(pre.input, NUM_KEYS as int);
}

/// A call immediately followed by a return restores the program counter
/// and the stack pointer. The program counter a call pushes is already
/// the address of the instruction after the call (the fetch advanced it
/// before dispatch), so the return resumes exactly there, and every
/// register, memory byte and live stack slot is as the call left it.
pub proof fn lemma_call_return(s: ChipState, nnn: u16)
    requires
        s.wf(),
        0 <= s.sp < STACK_DEPTH,
        0 <= s.pc <= 0xFFFF,
    ensures
        s.call(nnn).ret().pc == s.pc,
        s.call(nnn).ret().sp == s.sp,
        s.call(nnn).ret().regs == s.regs,
        s.call(nnn).ret().mem == s.mem,
        forall|i: int| 0 <= i < s.sp ==> s.call(nnn).ret().stack[i] == s.stack[i],
{
    assert(s.call(nnn).stack[s.sp] == s.pc as u16);
}

/// The framebuffer cell that bit `b` of a sprite row drawn into
/// framebuffer row `yy` lands on: column (reg[x] + b) mod 64.
pub open spec fn row_cell(s: ChipState, x: int, yy: int, b: int) -> int {
    yy * 64 + (s.regs[x] + b) % 64
}

/// The framebuffer cell that sprite row `r`, bit `b` of a draw lands on:
/// row (reg[y] + r) mod 32, column (reg[x] + b) mod 64.
pub open spec fn draw_target(s: ChipState, x: int, y: int, r: int, b: int) -> int {
    row_cell(s, x, (s.regs[y] + r) % 32, b)
}

/// Whether a draw of `n` sprite rows lands on framebuffer cell `i`.
pub open spec fn draw_touches(s: ChipState, x: int, y: int, n: int, i: int) -> bool {
    exists|r: int, b: int| 0 <= r < n && 0 <= b < 8 && i == draw_target(s, x, y, r, b)
}

/// Whether some set sprite bit of a draw of `n` rows lands on a lit cell.
pub open spec fn draw_collides(s: ChipState, x: int, y: int, n: int) -> bool {
    exists|r: int, b: int|
        0 <= r < n && 0 <= b < 8 && sprite_row_bit(s.mem[s.index + r], b) == 1 && s.vram[
            draw_target(s, x, y, r, b)
        ] == 1
}

proof fn lemma_or_bit(a: u8, b: u8)
    by (bit_vector)
    requires
        a <= 1,
        b <= 1,
    ensures
        (a | b) <= 1,
        (a | b) == 1 <==> (a == 1 || b == 1),
{
}

proof fn lemma_and_bit(a: u8, b: u8)
    by (bit_vector)
    requires
        a <= 1,
        b <= 1,
    ensures
        (a & b) <= 1,
        (a & b) == 1 <==> (a == 1 && b == 1),
{
}

proof fn lemma_xor_bit(a: u8, b: u8)
    by (bit_vector)
    requires
        a <= 1,
        b <= 1,
    ensures
        (a ^ b) <= 1,
{
}

proof fn lemma_shifted_bit(byte: u8, sh: u8)
    by (bit_vector)
    ensures
        (byte >> sh) & 1 <= 1,
{
}

proof fn lemma_mod_inj64(a: int, b1: int, b2: int)
    requires
        0 <= a,
        0 <= b1 < 64,
        0 <= b2 < 64,
        (a + b1) % 64 == (a + b2) % 64,
    ensures
        b1 == b2,
{
}

proof fn lemma_mod_inj32(a: int, b1: int, b2: int)
    requires
        0 <= a,
        0 <= b1 < 32,
        0 <= b2 < 32,
        (a + b1) % 32 == (a + b2) % 32,
    ensures
        b1 == b2,
{
}

/// Distinct (row, bit) pairs of one draw land on distinct cells: within a
/// sprite, rows are fewer than 32 and bits fewer than 64, so the wrapped
/// coordinates repeat nowhere.
proof fn lemma_target_inj(s: ChipState, x: int, y: int, r1: int, b1: int, r2: int, b2: int)
    requires
        s.wf(),
        0 <= x < 16,
        0 <= y < 16,
        0 <= r1 < 16,
        0 <= b1 < 8,
        0 <= r2 < 16,
        0 <= b2 < 8,
        draw_target(s, x, y, r1, b1) == draw_target(s, x, y, r2, b2),
    ensures
        r1 == r2,
        b1 == b2,
{
    let yy1 = (s.regs[y] + r1) % 32;
    let yy2 = (s.regs[y] + r2) % 32;
    let xx1 = (s.regs[x] + b1) % 64;
    let xx2 = (s.regs[x] + b2) % 64;
    assert(0 <= yy1 < 32 && 0 <= yy2 < 32 && 0 <= xx1 < 64 && 0 <= xx2 < 64);
    assert(yy1 == yy2 && xx1 == xx2);
    lemma_mod_inj32(s.regs[y] as int, r1, r2);
    lemma_mod_inj64(s.regs[x] as int, b1, b2);
}

/// What drawing bits 0..m of one sprite row into framebuffer row `yy`
/// does, cell by cell: each hit cell is xor-ed with its sprite bit, every
/// other cell is untouched, and the flag register ends 1 iff it started 1
/// or some set sprite bit hit a lit cell.
proof fn lemma_draw_bits_pixels(s1: ChipState, x: int, row: int, yy: int, m: int)
    requires
        s1.wf(),
        0 <= x < 16,
        x != FLAG_REG,
        0 <= yy < 32,
        0 <= m <= 8,
        0 <= row,
        s1.index + row < MEM_SIZE,
        forall|i: int| 0 <= i < VRAM_SIZE ==> s1.vram[i] <= 1,
        s1.regs[FLAG_REG as int] <= 1,
    ensures
        ({
            let t = s1.draw_bits(x, row, yy, m);
            let byte = s1.mem[s1.index + row];
            &&& t.mem == s1.mem
            &&& t.pc == s1.pc
            &&& t.sp == s1.sp
            &&& t.stack == s1.stack
            &&& t.index == s1.index
            &&& t.delay == s1.delay
            &&& t.sound == s1.sound
            &&& t.input == s1.input
            &&& t.opcode == s1.opcode
            &&& t.regs.len() == s1.regs.len()
            &&& t.vram.len() == s1.vram.len()
            &&& forall|j: int| 0 <= j < 16 && j != FLAG_REG ==> t.regs[j] == s1.regs[j]
            &&& forall|b: int|
                0 <= b < m ==> t.vram[#[trigger] row_cell(s1, x, yy, b)] == s1.vram[row_cell(
                    s1,
                    x,
                    yy,
                    b,
                )] ^ sprite_row_bit(byte, b)
            &&& forall|i: int|
                0 <= i < VRAM_SIZE && !(exists|b: int|
                    0 <= b < m && i == #[trigger] row_cell(s1, x, yy, b)) ==> t.vram[i]
                    == s1.vram[i]
            &&& forall|i: int| 0 <= i < VRAM_SIZE ==> t.vram[i] <= 1
            &&& t.regs[FLAG_REG as int] <= 1
            &&& (t.regs[FLAG_REG as int] == 1 <==> (s1.regs[FLAG_REG as int] == 1 || exists|b: int|
                0 <= b < m && #[trigger] sprite_row_bit(byte, b) == 1 && s1.vram[row_cell(
                    s1,
                    x,
                    yy,
                    b,
                )] == 1))
        }),
    decreases m,
{
    if m > 0 {
        lemma_draw_bits_pixels(s1, x, row, yy, m - 1);
        let t_prev = s1.draw_bits(x, row, yy, m - 1);
        let t = s1.draw_bits(x, row, yy, m);
        let byte = s1.mem[s1.index + row];
        let bit = m - 1;
        let pix = row_cell(s1, x, yy, bit);
        let color = sprite_row_bit(byte, bit);
        assert(0 <= (s1.regs[x] + bit) % 64 < 64);
        assert(0 <= pix < VRAM_SIZE);
        assert forall|b: int| 0 <= b < m - 1 implies #[trigger] row_cell(s1, x, yy, b)
            != pix by {
            if row_cell(s1, x, yy, b) == pix {
                lemma_mod_inj64(s1.regs[x] as int, b, bit);
            }
        }
        assert(!(exists|b: int| 0 <= b < m - 1 && pix == #[trigger] row_cell(s1, x, yy, b)));
        assert(t_prev.vram[pix] == s1.vram[pix]);
        assert(t == t_prev.draw_bit(x, row, yy, bit));
        assert(t_prev.regs[x] == s1.regs[x]);
        lemma_shifted_bit(byte, (7 - bit) as u8);
        assert(color <= 1);
        lemma_and_bit(color, t_prev.vram[pix]);
        lemma_or_bit(t_prev.regs[FLAG_REG as int], color & t_prev.vram[pix]);
        lemma_xor_bit(t_prev.vram[pix], color);
        assert(t.vram == t_prev.vram.update(pix, t_prev.vram[pix] ^ color));
        assert(t.vram[pix] == s1.vram[pix] ^ color);
        assert forall|b: int| 0 <= b < m implies t.vram[#[trigger] row_cell(s1, x, yy, b)]
            == s1.vram[row_cell(s1, x, yy, b)] ^ sprite_row_bit(byte, b) by {
            if b < m - 1 {
                if row_cell(s1, x, yy, b) == pix {
                    lemma_mod_inj64(s1.regs[x] as int, b, bit);
                }
                assert(t.vram[row_cell(s1, x, yy, b)] == t_prev.vram[row_cell(s1, x, yy, b)]);
            }
        }
        assert forall|i: int|
            0 <= i < VRAM_SIZE && !(exists|b: int|
                0 <= b < m && i == #[trigger] row_cell(s1, x, yy, b)) implies t.vram[i]
            == s1.vram[i] by {
            assert(i != pix);
            assert(!(exists|b: int| 0 <= b < m - 1 && i == #[trigger] row_cell(s1, x, yy, b)));
        }
        // the flag after this bit
        let f_prev = t_prev.regs[FLAG_REG as int];
        let f = t.regs[FLAG_REG as int];
        assert(f == (f_prev | (color & t_prev.vram[pix])));
        assert(f == 1 <==> (f_prev == 1 || (color == 1 && s1.vram[pix] == 1)));
        if f == 1 {
            if f_prev == 1 {
                if s1.regs[FLAG_REG as int] != 1 {
                    let b0 = choose|b: int|
                        0 <= b < m - 1 && #[trigger] sprite_row_bit(byte, b) == 1
                            && s1.vram[row_cell(s1, x, yy, b)] == 1;
                    assert(0 <= b0 < m && sprite_row_bit(byte, b0) == 1 && s1.vram[row_cell(
                        s1,
                        x,
                        yy,
                        b0,
                    )] == 1);
                }
            } else {
                assert(0 <= bit < m && sprite_row_bit(byte, bit) == 1 && s1.vram[row_cell(
                    s1,
                    x,
                    yy,
                    bit,
                )] == 1);
            }
        }
        if s1.regs[FLAG_REG as int] == 1 {
            assert(f_prev == 1);
        }
        if exists|b: int|
            0 <= b < m && #[trigger] sprite_row_bit(byte, b) == 1 && s1.vram[row_cell(
                s1,
                x,
                yy,
                b,
            )] == 1 {
            let b0 = choose|b: int|
                0 <= b < m && #[trigger] sprite_row_bit(byte, b) == 1 && s1.vram[row_cell(
                    s1,
                    x,
                    yy,
                    b,
                )] == 1;
            if b0 < m - 1 {
                assert(f_prev == 1);
            } else {
                assert(b0 == bit);
                assert(f == 1);
            }
        }
    }
}

/// What drawing sprite rows 0..k does, cell by cell, relative to the
/// state the drawing loop started from.
proof fn lemma_draw_rows_pixels(s0: ChipState, x: int, y: int, k: int)
    requires
        s0.wf(),
        0 <= x < 16,
        x != FLAG_REG,
        0 <= y < 16,
        y != FLAG_REG,
        0 <= k < 16,
        k == 0 || s0.index + k <= MEM_SIZE,
        forall|i: int| 0 <= i < VRAM_SIZE ==> s0.vram[i] <= 1,
        s0.regs[FLAG_REG as int] <= 1,
    ensures
        ({
            let t = s0.draw_rows(x, y, k);
            &&& t.mem == s0.mem
            &&& t.pc == s0.pc
            &&& t.sp == s0.sp
            &&& t.stack == s0.stack
            &&& t.index == s0.index
            &&& t.delay == s0.delay
            &&& t.sound == s0.sound
            &&& t.input == s0.input
            &&& t.opcode == s0.opcode
            &&& t.regs.len() == s0.regs.len()
            &&& t.vram.len() == s0.vram.len()
            &&& forall|j: int| 0 <= j < 16 && j != FLAG_REG ==> t.regs[j] == s0.regs[j]
            &&& forall|r: int, b: int|
                0 <= r < k && 0 <= b < 8 ==> t.vram[#[trigger] draw_target(s0, x, y, r, b)]
                    == s0.vram[draw_target(s0, x, y, r, b)] ^ sprite_row_bit(
                    s0.mem[s0.index + r],
                    b,
                )
            &&& forall|i: int|
                0 <= i < VRAM_SIZE && !draw_touches(s0, x, y, k, i) ==> t.vram[i] == s0.vram[i]
            &&& forall|i: int| 0 <= i < VRAM_SIZE ==> t.vram[i] <= 1
            &&& t.regs[FLAG_REG as int] <= 1
            &&& (t.regs[FLAG_REG as int] == 1 <==> (s0.regs[FLAG_REG as int] == 1 || draw_collides(
                s0,
                x,
                y,
                k,
            )))
        }),
    decreases k,
{
    if k > 0 {
        lemma_draw_rows_pixels(s0, x, y, k - 1);
        let t_prev = s0.draw_rows(x, y, k - 1);
        let t = s0.draw_rows(x, y, k);
        let row = k - 1;
        let byte = s0.mem[s0.index + row];
        let yy = (s0.regs[y] + row) % 32;
        assert(t_prev.regs[y] == s0.regs[y]);
        assert(t == t_prev.draw_bits(x, row, yy, 8));
        assert(t_prev.wf());
        lemma_draw_bits_pixels(t_prev, x, row, yy, 8);
        assert(t_prev.regs[x] == s0.regs[x]);
        assert(t_prev.mem[t_prev.index + row] == byte);
        // a cell of this row as the bits lemma names it is the draw target
        assert forall|b: int| 0 <= b < 8 implies #[trigger] row_cell(t_prev, x, yy, b)
            == draw_target(s0, x, y, row, b) by {}
        // this row's cells are untouched by the earlier rows
        assert forall|b: int| 0 <= b < 8 implies t_prev.vram[#[trigger] draw_target(
            s0,
            x,
            y,
            row,
            b,
        )] == s0.vram[draw_target(s0, x, y, row, b)] by {
            if draw_touches(s0, x, y, k - 1, draw_target(s0, x, y, row, b)) {
                let (r2, b2) = choose|r2: int, b2: int|
                    0 <= r2 < k - 1 && 0 <= b2 < 8 && draw_target(s0, x, y, row, b)
                        == #[trigger] draw_target(s0, x, y, r2, b2);
                lemma_target_inj(s0, x, y, row, b, r2, b2);
            }
        }
        // cell effect for every row below k
        assert forall|r: int, b: int| 0 <= r < k && 0 <= b < 8 implies t.vram[#[trigger] draw_target(
            s0,
            x,
            y,
            r,
            b,
        )] == s0.vram[draw_target(s0, x, y, r, b)] ^ sprite_row_bit(s0.mem[s0.index + r], b) by {
            let cell = draw_target(s0, x, y, r, b);
            assert(0 <= (s0.regs[y] + r) % 32 < 32 && 0 <= (s0.regs[x] + b) % 64 < 64);
            assert(0 <= cell < VRAM_SIZE);
            if r < k - 1 {
                assert forall|b3: int| 0 <= b3 < 8 implies cell != #[trigger] row_cell(
                    t_prev,
                    x,
                    yy,
                    b3,
                ) by {
                    if cell == row_cell(t_prev, x, yy, b3) {
                        lemma_target_inj(s0, x, y, r, b, row, b3);
                    }
                }
                assert(t.vram[cell] == t_prev.vram[cell]);
            } else {
                assert(cell == row_cell(t_prev, x, yy, b));
            }
        }
        // untouched cells keep their value
        assert forall|i: int|
            0 <= i < VRAM_SIZE && !draw_touches(s0, x, y, k, i) implies t.vram[i]
            == s0.vram[i] by {
            assert(!draw_touches(s0, x, y, k - 1, i)) by {
                if draw_touches(s0, x, y, k - 1, i) {
                    let (r2, b2) = choose|r2: int, b2: int|
                        0 <= r2 < k - 1 && 0 <= b2 < 8 && i == #[trigger] draw_target(
                            s0,
                            x,
                            y,
                            r2,
                            b2,
                        );
                    assert(draw_touches(s0, x, y, k, i));
                }
            }
            assert forall|b3: int| 0 <= b3 < 8 implies i != #[trigger] row_cell(
                t_prev,
                x,
                yy,
                b3,
            ) by {
                if i == row_cell(t_prev, x, yy, b3) {
                    assert(i == draw_target(s0, x, y, row, b3));
                    assert(draw_touches(s0, x, y, k, i));
                }
            }
            assert(t.vram[i] == t_prev.vram[i]);
        }
        // the flag accumulates exactly the collisions
        if t.regs[FLAG_REG as int] == 1 {
            if t_prev.regs[FLAG_REG as int] == 1 {
                if s0.regs[FLAG_REG as int] != 1 {
                    let (r2, b2) = choose|r2: int, b2: int|
                        0 <= r2 < k - 1 && 0 <= b2 < 8 && sprite_row_bit(s0.mem[s0.index + r2], b2)
                            == 1 && s0.vram[#[trigger] draw_target(s0, x, y, r2, b2)] == 1;
                    assert(draw_collides(s0, x, y, k));
                }
            } else {
                let b0 = choose|b: int|
                    0 <= b < 8 && #[trigger] sprite_row_bit(byte, b) == 1 && t_prev.vram[
                        row_cell(t_prev, x, yy, b)
                    ] == 1;
                assert(sprite_row_bit(s0.mem[s0.index + row], b0) == 1 && s0.vram[draw_target(
                    s0,
                    x,
                    y,
                    row,
                    b0,
                )] == 1);
                assert(draw_collides(s0, x, y, k));
            }
        }
        if s0.regs[FLAG_REG as int] == 1 {
            assert(t.regs[FLAG_REG as int] == 1);
        }
        if draw_collides(s0, x, y, k) {
            let (r2, b2) = choose|r2: int, b2: int|
                0 <= r2 < k && 0 <= b2 < 8 && sprite_row_bit(s0.mem[s0.index + r2], b2) == 1
                    && s0.vram[#[trigger] draw_target(s0, x, y, r2, b2)] == 1;
            if r2 < k - 1 {
                assert(draw_collides(s0, x, y, k - 1));
                assert(t_prev.regs[FLAG_REG as int] == 1);
                assert(t.regs[FLAG_REG as int] == 1);
            } else {
                assert(t_prev.vram[row_cell(t_prev, x, yy, b2)] == s0.vram[draw_target(
                    s0,
                    x,
                    y,
                    row,
                    b2,
                )]);
                assert(sprite_row_bit(t_prev.mem[t_prev.index + row], b2) == 1 && t_prev.vram[
                    row_cell(t_prev, x, yy, b2)
                ] == 1);
                assert(t.regs[FLAG_REG as int] == 1);
            }
        }
    }
}

/// The sprite draw, cell by cell: with coordinate registers other than
/// the flag register and a single-bit framebuffer, drawing `n` rows
/// xor-s sprite bit `b` of row `r` into exactly the cell at row
/// (reg[y] + r) mod 32, column (reg[x] + b) mod 64, leaves every other
/// cell untouched, keeps the framebuffer single-bit, changes no register
/// but the flag register, and ends with the flag register 1 iff some set
/// sprite bit landed on a lit cell, else 0. (With the flag register
/// itself as a coordinate register the wrapped coordinates shift while
/// the flag accumulates, and no such closed form holds.)
#[verifier::rlimit(100)]
pub proof fn lemma_draw_pixels(s: ChipState, x: int, y: int, n: int)
    requires
        s.wf(),
        0 <= x < 16,
        x != FLAG_REG,
        0 <= y < 16,
        y != FLAG_REG,
        0 <= n < 16,
        n == 0 || s.index + n <= MEM_SIZE,
        forall|i: int| 0 <= i < VRAM_SIZE ==> s.vram[i] <= 1,
    ensures
        ({
            let t = s.draw(x, y, n);
            &&& t.mem == s.mem
            &&& t.pc == s.pc
            &&& t.sp == s.sp
            &&& t.stack == s.stack
            &&& t.index == s.index
            &&& t.delay == s.delay
            &&& t.sound == s.sound
            &&& t.input == s.input
            &&& t.opcode == s.opcode
            &&& t.regs.len() == s.regs.len()
            &&& t.vram.len() == s.vram.len()
            &&& forall|j: int| 0 <= j < 16 && j != FLAG_REG ==> t.regs[j] == s.regs[j]
            &&& forall|r: int, b: int|
                0 <= r < n && 0 <= b < 8 ==> t.vram[#[trigger] draw_target(s, x, y, r, b)]
                    == s.vram[draw_target(s, x, y, r, b)] ^ sprite_row_bit(s.mem[s.index + r], b)
            &&& forall|i: int|
                0 <= i < VRAM_SIZE && !draw_touches(s, x, y, n, i) ==> t.vram[i] == s.vram[i]
            &&& forall|i: int| 0 <= i < VRAM_SIZE ==> t.vram[i] <= 1
            &&& t.regs[FLAG_REG as int] == (if draw_collides(s, x, y, n) {
                1u8
            } else {
                0u8
            })
        }),
{
    let s0 = ChipState { regs: s.regs.update(FLAG_REG as int, 0u8), ..s };
    lemma_cleared_flag_bridge(s, s0, x, y, n);
    lemma_draw_rows_pixels(s0, x, y, n);
    let t = s.draw(x, y, n);
    assert(t == s0.draw_rows(x, y, n));
    assert forall|r: int, b: int| 0 <= r < n && 0 <= b < 8 implies t.vram[#[trigger] draw_target(
        s,
        x,
        y,
        r,
        b,
    )] == s.vram[draw_target(s, x, y, r, b)] ^ sprite_row_bit(s.mem[s.index + r], b) by {
        assert(draw_target(s0, x, y, r, b) == draw_target(s, x, y, r, b));
        assert(t.vram[draw_target(s0, x, y, r, b)] == s0.vram[draw_target(s0, x, y, r, b)]
            ^ sprite_row_bit(s0.mem[s0.index + r], b));
    }
    assert forall|i: int| 0 <= i < VRAM_SIZE && !draw_touches(s, x, y, n, i) implies t.vram[i]
        == s.vram[i] by {
        assert(!draw_touches(s0, x, y, n, i));
    }
}

/// Clearing the flag register changes neither where a draw lands nor
/// whether it collides: the coordinate registers are other registers.
proof fn lemma_cleared_flag_bridge(s: ChipState, s0: ChipState, x: int, y: int, n: int)
    requires
        s.wf(),
        s0 == (ChipState { regs: s.regs.update(FLAG_REG as int, 0u8), ..s }),
        0 <= x < 16,
        x != FLAG_REG,
        0 <= y < 16,
        y != FLAG_REG,
        0 <= n < 16,
    ensures
        forall|r: int, b: int|
            0 <= r < n && 0 <= b < 8 ==> #[trigger] draw_target(s0, x, y, r, b) == draw_target(
                s,
                x,
                y,
                r,
                b,
            ),
        forall|i: int| #[trigger] draw_touches(s0, x, y, n, i) <==> draw_touches(s, x, y, n, i),
        draw_collides(s0, x, y, n) <==> draw_collides(s, x, y, n),
{
    assert(s0.regs[x] == s.regs[x] && s0.regs[y] == s.regs[y]);
    assert forall|r: int, b: int| 0 <= r < n && 0 <= b < 8 implies #[trigger] draw_target(
        s0,
        x,
        y,
        r,
        b,
    ) == draw_target(s, x, y, r, b) by {}
    assert forall|i: int| #[trigger] draw_touches(s0, x, y, n, i) <==> draw_touches(
        s,
        x,
        y,
        n,
        i,
    ) by {
        if draw_touches(s0, x, y, n, i) {
            let (r2, b2) = choose|r2: int, b2: int|
                0 <= r2 < n && 0 <= b2 < 8 && i == #[trigger] draw_target(s0, x, y, r2, b2);
            assert(i == draw_target(s, x, y, r2, b2));
            assert(draw_touches(s, x, y, n, i));
        }
        if draw_touches(s, x, y, n, i) {
            let (r2, b2) = choose|r2: int, b2: int|
                0 <= r2 < n && 0 <= b2 < 8 && i == #[trigger] draw_target(s, x, y, r2, b2);
            assert(i == draw_target(s0, x, y, r2, b2));
            assert(draw_touches(s0, x, y, n, i));
        }
    }
    if draw_collides(s, x, y, n) {
        let (r2, b2) = choose|r2: int, b2: int|
            0 <= r2 < n && 0 <= b2 < 8 && sprite_row_bit(s.mem[s.index + r2], b2) == 1 && s.vram[
                #[trigger] draw_target(s, x, y, r2, b2)
            ] == 1;
        assert(sprite_row_bit(s0.mem[s0.index + r2], b2) == 1 && s0.vram[draw_target(
            s0,
            x,
            y,
            r2,
            b2,
        )] == 1);
        assert(draw_collides(s0, x, y, n));
    }
    if draw_collides(s0, x, y, n) {
        let (r2, b2) = choose|r2: int, b2: int|
            0 <= r2 < n && 0 <= b2 < 8 && sprite_row_bit(s0.mem[s0.index + r2], b2) == 1
                && s0.vram[#[trigger] draw_target(s0, x, y, r2, b2)] == 1;
        assert(sprite_row_bit(s.mem[s.index + r2], b2) == 1 && s.vram[draw_target(
            s,
            x,
            y,
            r2,
            b2,
        )] == 1);
        assert(draw_collides(s, x, y, n));
    }
}

proof fn lemma_xor_cancel(a: u8, b: u8)
    by (bit_vector)
    ensures
        (a ^ b) ^ b == a,
{
}

/// Two states whose coordinate registers agree draw onto the same cells.
proof fn lemma_same_coords_bridge(s: ChipState, s2: ChipState, x: int, y: int, n: int)
    requires
        s.wf(),
        s2.regs.len() == s.regs.len(),
        0 <= x < 16,
        0 <= y < 16,
        0 <= n < 16,
        s2.regs[x] == s.regs[x],
        s2.regs[y] == s.regs[y],
    ensures
        forall|r: int, b: int|
            0 <= r < n && 0 <= b < 8 ==> #[trigger] draw_target(s2, x, y, r, b) == draw_target(
                s,
                x,
                y,
                r,
                b,
            ),
        forall|i: int| #[trigger] draw_touches(s2, x, y, n, i) <==> draw_touches(s, x, y, n, i),
{
    assert forall|r: int, b: int| 0 <= r < n && 0 <= b < 8 implies #[trigger] draw_target(
        s2,
        x,
        y,
        r,
        b,
    ) == draw_target(s, x, y, r, b) by {}
    assert forall|i: int| #[trigger] draw_touches(s2, x, y, n, i) <==> draw_touches(
        s,
        x,
        y,
        n,
        i,
    ) by {
        if draw_touches(s2, x, y, n, i) {
            let (r2, b2) = choose|r2: int, b2: int|
                0 <= r2 < n && 0 <= b2 < 8 && i == #[trigger] draw_target(s2, x, y, r2, b2);
            assert(i == draw_target(s, x, y, r2, b2));
            assert(draw_touches(s, x, y, n, i));
        }
        if draw_touches(s, x, y, n, i) {
            let (r2, b2) = choose|r2: int, b2: int|
                0 <= r2 < n && 0 <= b2 < 8 && i == #[trigger] draw_target(s, x, y, r2, b2);
            assert(i == draw_target(s2, x, y, r2, b2));
            assert(draw_touches(s2, x, y, n, i));
        }
    }
}

/// Drawing the same sprite twice in succession restores every
/// framebuffer cell: the second xor of each sprite bit cancels the
/// first, and cells no sprite bit lands on were never changed. (The
/// coordinate registers must not be the flag register, which the draws
/// themselves overwrite.)
#[verifier::rlimit(100)]
pub proof fn lemma_draw_twice_restores(s: ChipState, x: int, y: int, n: int)
    requires
        s.wf(),
        0 <= x < 16,
        x != FLAG_REG,
        0 <= y < 16,
        y != FLAG_REG,
        0 <= n < 16,
        n == 0 || s.index + n <= MEM_SIZE,
        forall|i: int| 0 <= i < VRAM_SIZE ==> s.vram[i] <= 1,
    ensures
        ({
            let u = s.draw(x, y, n).draw(x, y, n);
            &&& u.vram.len() == s.vram.len()
            &&& forall|i: int| 0 <= i < VRAM_SIZE ==> u.vram[i] == s.vram[i]
        }),
{
    lemma_draw_pixels(s, x, y, n);
    let t = s.draw(x, y, n);
    assert(t.wf());
    lemma_draw_pixels(t, x, y, n);
    lemma_same_coords_bridge(s, t, x, y, n);
    let u = t.draw(x, y, n);
    assert forall|i: int| 0 <= i < VRAM_SIZE implies u.vram[i] == s.vram[i] by {
        if draw_touches(s, x, y, n, i) {
            let (r2, b2) = choose|r2: int, b2: int|
                0 <= r2 < n && 0 <= b2 < 8 && i == #[trigger] draw_target(s, x, y, r2, b2);
            assert(i == draw_target(t, x, y, r2, b2));
            assert(t.vram[i] == s.vram[i] ^ sprite_row_bit(s.mem[s.index + r2], b2));
            assert(u.vram[i] == t.vram[i] ^ sprite_row_bit(t.mem[t.index + r2], b2));
            lemma_xor_cancel(s.vram[i], sprite_row_bit(s.mem[s.index + r2], b2));
        } else {
            assert(!draw_touches(t, x, y, n, i));
            assert(u.vram[i] == t.vram[i]);
            assert(t.vram[i] == s.vram[i]);
        }
    }
}

} // verus!

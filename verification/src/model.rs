//! The mathematical model of the machine: a ghost record of the whole
//! machine state, one spec-level transition per instruction, and the
//! relation that one full fetch-decode-execute-timer cycle satisfies.

use vstd::prelude::*;

use crate::decode::{spec_decode, Instr};
use crate::font::{font_spec, FONT_ADDRESS};

verus! {

/// Size of the byte-addressable memory.
pub const MEM_SIZE: usize = 4096;

/// Number of general-purpose registers.
pub const NUM_REGS: usize = 16;

/// Depth of the call stack.
pub const STACK_DEPTH: usize = 16;

/// Number of keys in the input latch.
pub const NUM_KEYS: usize = 16;

/// Width of the framebuffer in pixels.
pub const SCREEN_WIDTH: usize = 64;

/// Height of the framebuffer in pixels.
pub const SCREEN_HEIGHT: usize = 32;

/// Number of pixels in the framebuffer.
pub const VRAM_SIZE: usize = 2048;

/// Address at which program images are loaded and execution starts.
pub const PROGRAM_START: usize = 0x200;

/// Index of the register that carry, borrow and collision flags overwrite.
pub const FLAG_REG: usize = 15;

/// Why a cycle was refused. A failed interpreter must be reset before it is
/// stepped again: the reported condition means its address-space invariants
/// can no longer be trusted.
#[derive(Clone, Copy, Debug, PartialEq, Eq, Structural)]
pub enum ChipError {
    /// A call was attempted while the stack was at its maximum depth.
    StackOverflow,
    /// A return was attempted while the stack was empty.
    StackUnderflow,
    /// A computed address (instruction fetch, sprite read, decimal-digit
    /// write, register dump or load, or an input-latch index) fell outside
    /// the addressed array.
    OutOfBoundsAccess,
}

/// The whole machine state as mathematical values.
#[verifier::ext_equal]
pub ghost struct ChipState {
    /// The 4096 memory bytes.
    pub mem: Seq<u8>,
    /// The 16 general-purpose registers.
    pub regs: Seq<u8>,
    /// The 16-bit index register, used as a memory pointer.
    pub index: int,
    /// The program counter.
    pub pc: int,
    /// The 16 return-address slots of the call stack.
    pub stack: Seq<u16>,
    /// The stack pointer: the number of live stack slots.
    pub sp: int,
    /// The saturating delay timer.
    pub delay: u8,
    /// The saturating sound timer.
    pub sound: u8,
    /// The 16-key input latch; a key is down iff its byte is nonzero.
    pub input: Seq<u8>,
    /// The 64x32 framebuffer, row-major: pixel (x, y) is bit `y * 64 + x`.
    pub vram: Seq<u8>,
    /// The opcode word fetched by the current cycle.
    pub opcode: u16,
}

/// Truncate a sum of two bytes to 8 bits.
pub open spec fn wrap_add(a: int) -> u8
    recommends
        0 <= a < 512,
{
    if a > 255 {
        (a - 256) as u8
    } else {
        a as u8
    }
}

/// Subtract two bytes with 8-bit wraparound on underflow.
pub open spec fn wrap_sub(a: u8, b: u8) -> u8 {
    if a >= b {
        (a - b) as u8
    } else {
        (a + 256 - b) as u8
    }
}

/// Bit `bit` of a sprite row byte, most significant first.
pub open spec fn sprite_row_bit(byte: u8, bit: int) -> u8
    recommends
        0 <= bit < 8,
{
    (byte >> ((7 - bit) as u8)) & 1
}

/// The highest key index below `k` whose latch byte is exactly 1, if any:
/// the key the wait-for-key instruction reports when several are down.
pub open spec fn scan_key(input: Seq<u8>, k: int) -> Option<int>
    decreases k,
{
    if k <= 0 {
        None
    } else if input[k - 1] == 1 {
        Some(k - 1)
    } else {
        scan_key(input, k - 1)
    }
}

impl ChipState {
    /// Structural well-formedness: every array has its fixed size and the
    /// stack pointer and address registers are in range.
    pub open spec fn wf(self) -> bool {
        &&& self.mem.len() == MEM_SIZE
        &&& self.regs.len() == NUM_REGS
        &&& self.stack.len() == STACK_DEPTH
        &&& 0 <= self.sp <= STACK_DEPTH
        &&& self.input.len() == NUM_KEYS
        &&& self.vram.len() == VRAM_SIZE
        &&& 0 <= self.pc
        &&& 0 <= self.index
    }

    /// The machine as it is at initialization: memory zeroed except for the
    /// font table, program counter at the program start, all else zero.
    pub open spec fn initial() -> ChipState {
        ChipState {
            mem: Seq::new(
                MEM_SIZE as nat,
                |a: int|
                    if FONT_ADDRESS <= a < FONT_ADDRESS + 80 {
                        font_spec(a - FONT_ADDRESS)
                    } else {
                        0u8
                    },
            ),
            regs: Seq::new(NUM_REGS as nat, |i: int| 0u8),
            index: 0,
            pc: PROGRAM_START as int,
            stack: Seq::new(STACK_DEPTH as nat, |i: int| 0u16),
            sp: 0,
            delay: 0,
            sound: 0,
            input: Seq::new(NUM_KEYS as nat, |i: int| 0u8),
            vram: Seq::new(VRAM_SIZE as nat, |i: int| 0u8),
            opcode: 0,
        }
    }

    /// 00E0: clear the framebuffer.
    pub open spec fn cls(self) -> ChipState {
        ChipState { vram: Seq::new(VRAM_SIZE as nat, |i: int| 0u8), ..self }
    }

    /// 00EE: pop the call stack into the program counter.
    pub open spec fn ret(self) -> ChipState
        recommends
            self.sp >= 1,
    {
        ChipState { sp: self.sp - 1, pc: self.stack[self.sp - 1] as int, ..self }
    }

    /// 2nnn: push the program counter, then jump to nnn.
    pub open spec fn call(self, nnn: u16) -> ChipState
        recommends
            0 <= self.sp < STACK_DEPTH,
            0 <= self.pc <= 0xFFFF,
    {
        ChipState {
            stack: self.stack.update(self.sp, self.pc as u16),
            sp: self.sp + 1,
            pc: nnn as int,
            ..self
        }
    }

    /// 1nnn: absolute jump.
    pub open spec fn jump(self, nnn: u16) -> ChipState {
        ChipState { pc: nnn as int, ..self }
    }

    /// Advance the program counter over the next instruction iff `cond`.
    pub open spec fn skip_if(self, cond: bool) -> ChipState {
        ChipState { pc: if cond { self.pc + 2 } else { self.pc }, ..self }
    }

    /// 6xkk: load an immediate.
    pub open spec fn load_imm(self, x: int, kk: u8) -> ChipState {
        ChipState { regs: self.regs.update(x, kk), ..self }
    }

    /// 7xkk: add an immediate, truncated to 8 bits, no flag output.
    pub open spec fn add_imm(self, x: int, kk: u8) -> ChipState {
        ChipState { regs: self.regs.update(x, wrap_add(self.regs[x] + kk)), ..self }
    }

    /// 8xy0: copy a register.
    pub open spec fn mov(self, x: int, y: int) -> ChipState {
        ChipState { regs: self.regs.update(x, self.regs[y]), ..self }
    }

    /// 8xy1: bitwise or.
    pub open spec fn or(self, x: int, y: int) -> ChipState {
        ChipState { regs: self.regs.update(x, self.regs[x] | self.regs[y]), ..self }
    }

    /// 8xy2: bitwise and.
    pub open spec fn and(self, x: int, y: int) -> ChipState {
        ChipState { regs: self.regs.update(x, self.regs[x] & self.regs[y]), ..self }
    }

    /// 8xy3: bitwise xor.
    pub open spec fn xor(self, x: int, y: int) -> ChipState {
        ChipState { regs: self.regs.update(x, self.regs[x] ^ self.regs[y]), ..self }
    }

    /// 8xy4: widened sum; reg[x] takes its low 8 bits, then the flag
    /// register takes 1 iff the sum exceeded 255, else 0.
    pub open spec fn add_reg(self, x: int, y: int) -> ChipState {
        let sum = self.regs[x] + self.regs[y];
        ChipState {
            regs: self.regs.update(x, wrap_add(sum)).update(
                FLAG_REG as int,
                if sum > 255 {
                    1u8
                } else {
                    0u8
                },
            ),
            ..self
        }
    }

    /// 8xy5: the flag register takes 1 iff reg[x] > reg[y], then reg[x]
    /// takes reg[x] - reg[y] with wraparound, reading the flag just
    /// written where an operand is the flag register itself.
    pub open spec fn sub_reg(self, x: int, y: int) -> ChipState {
        let r1 = self.regs.update(
            FLAG_REG as int,
            if self.regs[x] > self.regs[y] {
                1u8
            } else {
                0u8
            },
        );
        ChipState { regs: r1.update(x, wrap_sub(r1[x], r1[y])), ..self }
    }

    /// 8xy6: the flag register takes the low bit of reg[x], then reg[x] is
    /// shifted right once.
    pub open spec fn shr(self, x: int) -> ChipState {
        let r1 = self.regs.update(FLAG_REG as int, self.regs[x] & 1);
        ChipState { regs: r1.update(x, r1[x] >> 1u8), ..self }
    }

    /// 8xy7: the flag register takes 1 iff reg[y] > reg[x], then reg[x]
    /// takes reg[y] - reg[x] with wraparound.
    pub open spec fn sub_rev(self, x: int, y: int) -> ChipState {
        let r1 = self.regs.update(
            FLAG_REG as int,
            if self.regs[y] > self.regs[x] {
                1u8
            } else {
                0u8
            },
        );
        ChipState { regs: r1.update(x, wrap_sub(r1[y], r1[x])), ..self }
    }

    /// 8xyE: the flag register takes the high bit of reg[x], then reg[x] is
    /// shifted left once with 8-bit truncation.
    pub open spec fn shl(self, x: int) -> ChipState {
        let r1 = self.regs.update(FLAG_REG as int, (self.regs[x] & 0x80) >> 7u8);
        ChipState { regs: r1.update(x, r1[x] << 1u8), ..self }
    }

    /// Annn: load the index register.
    pub open spec fn load_index(self, nnn: u16) -> ChipState {
        ChipState { index: nnn as int, ..self }
    }

    /// Bnnn: jump to nnn plus reg[0].
    pub open spec fn jump_offset(self, nnn: u16) -> ChipState {
        ChipState { pc: nnn + self.regs[0], ..self }
    }

    /// Cxkk: reg[x] takes a byte `b` (drawn at random by the interpreter)
    /// masked with kk.
    pub open spec fn rand_mask(self, x: int, kk: u8, b: u8) -> ChipState {
        ChipState { regs: self.regs.update(x, b & kk), ..self }
    }

    /// Fx07: read the delay timer.
    pub open spec fn read_delay(self, x: int) -> ChipState {
        ChipState { regs: self.regs.update(x, self.delay), ..self }
    }

    /// Fx0A: if some key's latch byte is exactly 1, reg[x] takes the
    /// highest such key index and the cycle completes normally; otherwise
    /// the program counter is rewound over this instruction so that the
    /// next cycle re-executes it.
    pub open spec fn wait_key(self, x: int) -> ChipState
        recommends
            self.pc >= 2,
    {
        match scan_key(self.input, NUM_KEYS as int) {
            Some(k) => ChipState { regs: self.regs.update(x, k as u8), ..self },
            None => ChipState { pc: self.pc - 2, ..self },
        }
    }

    /// Fx15: set the delay timer.
    pub open spec fn set_delay(self, x: int) -> ChipState {
        ChipState { delay: self.regs[x], ..self }
    }

    /// Fx18: set the sound timer.
    pub open spec fn set_sound(self, x: int) -> ChipState {
        ChipState { sound: self.regs[x], ..self }
    }

    /// Fx1E: widened add of reg[x] into the index register, no flag.
    pub open spec fn add_index(self, x: int) -> ChipState {
        ChipState { index: self.index + self.regs[x], ..self }
    }

    /// Fx29: point the index register at the 5-byte font glyph for the hex
    /// digit in reg[x].
    pub open spec fn font_index(self, x: int) -> ChipState {
        ChipState { index: FONT_ADDRESS + 5 * self.regs[x], ..self }
    }

    /// Fx33: write the hundreds, tens and ones decimal digits of reg[x] to
    /// memory at the index register.
    pub open spec fn bcd(self, x: int) -> ChipState
        recommends
            0 <= self.index,
            self.index + 2 < MEM_SIZE,
    {
        ChipState {
            mem: self.mem.update(self.index, self.regs[x] / 100).update(
                self.index + 1,
                (self.regs[x] % 100) / 10,
            ).update(self.index + 2, self.regs[x] % 10),
            ..self
        }
    }

    /// Fx55: store reg[0]..=reg[x] to memory at the index register.
    pub open spec fn store_regs(self, x: int) -> ChipState
        recommends
            0 <= self.index,
            self.index + x < MEM_SIZE,
    {
        ChipState {
            mem: Seq::new(
                MEM_SIZE as nat,
                |a: int|
                    if self.index <= a <= self.index + x {
                        self.regs[a - self.index]
                    } else {
                        self.mem[a]
                    },
            ),
            ..self
        }
    }

    /// Fx65: load reg[0]..=reg[x] from memory at the index register.
    pub open spec fn load_regs(self, x: int) -> ChipState
        recommends
            0 <= self.index,
            self.index + x < MEM_SIZE,
    {
        ChipState {
            regs: Seq::new(
                NUM_REGS as nat,
                |j: int|
                    if j <= x {
                        self.mem[self.index + j]
                    } else {
                        self.regs[j]
                    },
            ),
            ..self
        }
    }

    /// One sprite bit of a draw: xor sprite bit `bit` of row `row` into the
    /// pixel at column (reg[x] + bit) mod 64 of framebuffer row `yy`, and
    /// or the collision (the bit was set and the pixel already on) into the
    /// flag register.
    pub open spec fn draw_bit(self, x: int, row: int, yy: int, bit: int) -> ChipState
        recommends
            self.wf(),
            0 <= x < 16,
            0 <= yy < 32,
            0 <= bit < 8,
            0 <= row,
            self.index + row < MEM_SIZE,
    {
        let xx = (self.regs[x] + bit) % 64;
        let pix = yy * 64 + xx;
        let color = sprite_row_bit(self.mem[self.index + row], bit);
        ChipState {
            regs: self.regs.update(FLAG_REG as int, self.regs[FLAG_REG as int] | (color
                & self.vram[pix])),
            vram: self.vram.update(pix, self.vram[pix] ^ color),
            ..self
        }
    }

    /// Sprite bits 0..nbits of row `row`, leftmost first, drawn in order
    /// into framebuffer row `yy`.
    pub open spec fn draw_bits(self, x: int, row: int, yy: int, nbits: int) -> ChipState
        decreases nbits,
    {
        if nbits <= 0 {
            self
        } else {
            self.draw_bits(x, row, yy, nbits - 1).draw_bit(x, row, yy, nbits - 1)
        }
    }

    /// Sprite rows 0..nrows drawn in order; each row's target framebuffer
    /// row is (reg[y] + row) mod 32, read when the row starts.
    pub open spec fn draw_rows(self, x: int, y: int, nrows: int) -> ChipState
        decreases nrows,
    {
        if nrows <= 0 {
            self
        } else {
            let s1 = self.draw_rows(x, y, nrows - 1);
            s1.draw_bits(x, nrows - 1, (s1.regs[y] + (nrows - 1)) % 32, 8)
        }
    }

    /// Dxyn: clear the flag register, then draw the n-row sprite at memory
    /// [index..index+n] at position (reg[x], reg[y]), wrapping coordinates
    /// modulo the framebuffer size; the flag register ends 1 iff some drawn
    /// sprite bit toggled an already-set pixel off.
    pub open spec fn draw(self, x: int, y: int, n: int) -> ChipState {
        ChipState { regs: self.regs.update(FLAG_REG as int, 0u8), ..self }.draw_rows(x, y, n)
    }

    /// The per-cycle timer step: each timer is decremented by one iff it is
    /// above zero, so neither ever goes below zero.
    pub open spec fn tick_timers(self) -> ChipState {
        ChipState {
            delay: if self.delay > 0 {
                (self.delay - 1) as u8
            } else {
                0u8
            },
            sound: if self.sound > 0 {
                (self.sound - 1) as u8
            } else {
                0u8
            },
            ..self
        }
    }
}

/// The side conditions the host word size forces on executing `op` from
/// state `s`: they hold of every state a fetch can produce, and only guard
/// additions and subtractions on the program counter.
pub open spec fn op_requires(s: ChipState, op: u16) -> bool {
    match spec_decode(op) {
        Instr::Call(_) => s.pc <= 0xFFFF,
        Instr::SkipEqImm(_, _) => s.pc + 2 <= usize::MAX,
        Instr::SkipNeImm(_, _) => s.pc + 2 <= usize::MAX,
        Instr::SkipEqReg(_, _) => s.pc + 2 <= usize::MAX,
        Instr::SkipNeReg(_, _) => s.pc + 2 <= usize::MAX,
        Instr::SkipKey(_) => s.pc + 2 <= usize::MAX,
        Instr::SkipNoKey(_) => s.pc + 2 <= usize::MAX,
        Instr::WaitKey(_) => s.pc >= 2,
        _ => true,
    }
}

/// What executing the already-fetched opcode `op` from state `s` yields:
/// the next state, or the error that refuses the cycle. `rnd` is the byte
/// the random-byte instruction draws; every other instruction ignores it.
pub open spec fn exec_op(s: ChipState, op: u16, rnd: u8) -> Result<ChipState, ChipError> {
    match spec_decode(op) {
        Instr::Cls => Ok(s.cls()),
        Instr::Ret => if s.sp >= 1 {
            Ok(s.ret())
        } else {
            Err(ChipError::StackUnderflow)
        },
        Instr::Jump(nnn) => Ok(s.jump(nnn)),
        Instr::Call(nnn) => if s.sp < STACK_DEPTH {
            Ok(s.call(nnn))
        } else {
            Err(ChipError::StackOverflow)
        },
        Instr::SkipEqImm(x, kk) => Ok(s.skip_if(s.regs[x as int] == kk)),
        Instr::SkipNeImm(x, kk) => Ok(s.skip_if(s.regs[x as int] != kk)),
        Instr::SkipEqReg(x, y) => Ok(s.skip_if(s.regs[x as int] == s.regs[y as int])),
        Instr::LoadImm(x, kk) => Ok(s.load_imm(x as int, kk)),
        Instr::AddImm(x, kk) => Ok(s.add_imm(x as int, kk)),
        Instr::Move(x, y) => Ok(s.mov(x as int, y as int)),
        Instr::Or(x, y) => Ok(s.or(x as int, y as int)),
        Instr::And(x, y) => Ok(s.and(x as int, y as int)),
        Instr::Xor(x, y) => Ok(s.xor(x as int, y as int)),
        Instr::Add(x, y) => Ok(s.add_reg(x as int, y as int)),
        Instr::Sub(x, y) => Ok(s.sub_reg(x as int, y as int)),
        Instr::Shr(x) => Ok(s.shr(x as int)),
        Instr::SubRev(x, y) => Ok(s.sub_rev(x as int, y as int)),
        Instr::Shl(x) => Ok(s.shl(x as int)),
        Instr::SkipNeReg(x, y) => Ok(s.skip_if(s.regs[x as int] != s.regs[y as int])),
        Instr::LoadIndex(nnn) => Ok(s.load_index(nnn)),
        Instr::JumpOffset(nnn) => Ok(s.jump_offset(nnn)),
        Instr::Random(x, kk) => Ok(s.rand_mask(x as int, kk, rnd)),
        Instr::Draw(x, y, n) => if n == 0 || s.index + n <= MEM_SIZE {
            Ok(s.draw(x as int, y as int, n as int))
        } else {
            Err(ChipError::OutOfBoundsAccess)
        },
        Instr::SkipKey(x) => if s.regs[x as int] < NUM_KEYS {
            Ok(s.skip_if(s.input[s.regs[x as int] as int] != 0))
        } else {
            Err(ChipError::OutOfBoundsAccess)
        },
        Instr::SkipNoKey(x) => if s.regs[x as int] < NUM_KEYS {
            Ok(s.skip_if(s.input[s.regs[x as int] as int] == 0))
        } else {
            Err(ChipError::OutOfBoundsAccess)
        },
        Instr::ReadDelay(x) => Ok(s.read_delay(x as int)),
        Instr::WaitKey(x) => Ok(s.wait_key(x as int)),
        Instr::SetDelay(x) => Ok(s.set_delay(x as int)),
        Instr::SetSound(x) => Ok(s.set_sound(x as int)),
        Instr::AddIndex(x) => if s.index + s.regs[x as int] <= usize::MAX {
            Ok(s.add_index(x as int))
        } else {
            Err(ChipError::OutOfBoundsAccess)
        },
        Instr::FontIndex(x) => Ok(s.font_index(x as int)),
        Instr::Bcd(x) => if s.index + 2 < MEM_SIZE {
            Ok(s.bcd(x as int))
        } else {
            Err(ChipError::OutOfBoundsAccess)
        },
        Instr::StoreRegs(x) => if s.index + x < MEM_SIZE {
            Ok(s.store_regs(x as int))
        } else {
            Err(ChipError::OutOfBoundsAccess)
        },
        Instr::LoadRegs(x) => if s.index + x < MEM_SIZE {
            Ok(s.load_regs(x as int))
        } else {
            Err(ChipError::OutOfBoundsAccess)
        },
        Instr::Nop => Ok(s),
    }
}

/// What executing the already-fetched opcode of `pre` relates: from state
/// `pre`, with `rnd` the byte a random-byte instruction would draw, the
/// dispatch returns `r` and leaves state `post`; a refused instruction
/// changes nothing.
pub open spec fn exec_rel(
    pre: ChipState,
    post: ChipState,
    r: Result<(), ChipError>,
    rnd: u8,
) -> bool {
    match exec_op(pre, pre.opcode, rnd) {
        Ok(s) => r is Ok && post == s,
        Err(e) => r == Err::<(), ChipError>(e) && post == pre,
    }
}

/// True iff the fetch at `s.pc` stays inside memory.
pub open spec fn fetch_ok(s: ChipState) -> bool {
    s.pc + 1 < MEM_SIZE
}

/// The opcode word the fetch at `s.pc` composes, big-endian.
pub open spec fn fetched(s: ChipState) -> u16
    recommends
        s.wf(),
        fetch_ok(s),
{
    ((s.mem[s.pc] as u16) << 8u16) | (s.mem[s.pc + 1] as u16)
}

/// What one whole cycle relates: from state `pre`, with `rnd` the byte a
/// random-byte instruction would draw, the cycle returns `r` and leaves
/// state `post`. A fetch outside memory refuses the cycle and changes
/// nothing; a refused instruction leaves the fetch's effects (opcode word
/// and advanced program counter) but executes nothing and does not tick the
/// timers; a completed instruction is followed by one timer tick.
pub open spec fn step_rel(
    pre: ChipState,
    post: ChipState,
    r: Result<(), ChipError>,
    rnd: u8,
) -> bool {
    if !fetch_ok(pre) {
        r == Err::<(), ChipError>(ChipError::OutOfBoundsAccess) && post == pre
    } else {
        let op = fetched(pre);
        let s1 = ChipState { opcode: op, pc: pre.pc + 2, ..pre };
        match exec_op(s1, op, rnd) {
            Ok(s2) => r is Ok && post == s2.tick_timers(),
            Err(e) => r == Err::<(), ChipError>(e) && post == s1,
        }
    }
}

} // verus!

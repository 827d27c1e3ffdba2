//! The interpreter itself: the machine state as executable data, one
//! handler per instruction, and the fetch-decode-execute-timer cycle.
//!
//! Every handler's contract ties the executable state to the spec-level
//! transition of the same instruction in [`crate::model`]. Stack and
//! address violations are checked before anything is written: each is
//! reported as a [`ChipError`], and a refused operation leaves the state
//! it examined unchanged.

use vstd::prelude::*;

use crate::decode::{decode, lemma_decode_operands_in_range, spec_decode, Instr};
use crate::font::{font_byte, font_spec, FONT_ADDRESS, FONT_SIZE};
use crate::model::{
    exec_rel, fetched, op_requires, scan_key, step_rel, wrap_sub, ChipError,
    ChipState, FLAG_REG, MEM_SIZE, NUM_KEYS, NUM_REGS, PROGRAM_START, SCREEN_HEIGHT, SCREEN_WIDTH,
    STACK_DEPTH, VRAM_SIZE,
};

verus! {

/// Relies on rand::random: draws a value from the thread-local generator.
/// Nothing is promised of the result: every caller must be correct for
/// every byte that comes back.
pub assume_specification<T>[ rand::random::<T> ]() -> (r: T)
    where
        rand::distributions::Standard: rand::distributions::Distribution<T>,
;

/// A vector of `n` zero bytes.
fn zero_bytes(n: usize) -> (v: Vec<u8>)
    ensures
        v@ == Seq::new(n as nat, |i: int| 0u8),
{
    let mut v: Vec<u8> = Vec::new();
    let mut i: usize = 0;
    while i < n
        invariant
            i == v@.len() <= n,
            forall|j: int| 0 <= j < i ==> v@[j] == 0u8,
        decreases n - i,
    {
        v.push(0);
        i += 1;
    }
    proof {
        assert(v@ =~= Seq::new(n as nat, |i: int| 0u8));
    }
    v
}

/// A vector of `n` zero 16-bit words.
fn zero_words(n: usize) -> (v: Vec<u16>)
    ensures
        v@ == Seq::new(n as nat, |i: int| 0u16),
{
    let mut v: Vec<u16> = Vec::new();
    let mut i: usize = 0;
    while i < n
        invariant
            i == v@.len() <= n,
            forall|j: int| 0 <= j < i ==> v@[j] == 0u16,
        decreases n - i,
    {
        v.push(0);
        i += 1;
    }
    proof {
        assert(v@ =~= Seq::new(n as nat, |i: int| 0u16));
    }
    v
}

/// Subtraction of bytes with 8-bit wraparound on underflow.
fn byte_sub_wrap(a: u8, b: u8) -> (r: u8)
    ensures
        r == wrap_sub(a, b),
{
    if a >= b {
        a - b
    } else {
        ((a as u16 + 256) - b as u16) as u8
    }
}

/// The machine: all state lives here and is mutated only by the methods
/// below, one per instruction, plus the fetch-decode-execute-timer `cycle`.
pub struct Chip {
    memory: Vec<u8>,
    registers: Vec<u8>,
    index_register: usize,
    pc: usize,
    stack: Vec<u16>,
    sp: usize,
    sound_timer: u8,
    delay_timer: u8,
    input: Vec<u8>,
    vram: Vec<u8>,
    opcode: u16,
}

impl View for Chip {
    type V = ChipState;

    closed spec fn view(&self) -> ChipState {
        ChipState {
            mem: self.memory@,
            regs: self.registers@,
            index: self.index_register as int,
            pc: self.pc as int,
            stack: self.stack@,
            sp: self.sp as int,
            delay: self.delay_timer,
            sound: self.sound_timer,
            input: self.input@,
            vram: self.vram@,
            opcode: self.opcode,
        }
    }
}

impl Chip {
    /// A machine at initialization: zeroed memory with the font table
    /// preloaded, program counter at the program start, everything else
    /// zero.
    pub fn new() -> (c: Chip)
        ensures
            c@.wf(),
            c@ == ChipState::initial(),
    {
        let mut chip = Chip {
            memory: zero_bytes(MEM_SIZE),
            registers: zero_bytes(NUM_REGS),
            index_register: 0,
            pc: 0,
            stack: zero_words(STACK_DEPTH),
            sp: 0,
            sound_timer: 0,
            delay_timer: 0,
            input: zero_bytes(NUM_KEYS),
            vram: zero_bytes(VRAM_SIZE),
            opcode: 0,
        };
        chip.pc = PROGRAM_START;
        chip.insert_font();
        proof {
            assert(chip@.mem =~= ChipState::initial().mem);
            assert(chip@ =~= ChipState::initial());
        }
        chip
    }

    /// Write the font sprite table over memory starting at its reserved
    /// address; all other memory bytes are untouched.
    pub fn insert_font(&mut self)
        requires
            old(self)@.wf(),
        ensures
            final(self)@.wf(),
            final(self)@ == (ChipState {
                mem: Seq::new(
                    MEM_SIZE as nat,
                    |a: int|
                        if FONT_ADDRESS <= a < FONT_ADDRESS + FONT_SIZE {
                            font_spec(a - FONT_ADDRESS)
                        } else {
                            old(self)@.mem[a]
                        },
                ),
                ..old(self)@
            }),
    {
        proof {
            assert(self@.mem =~= Seq::new(
                MEM_SIZE as nat,
                |a: int|
                    if FONT_ADDRESS <= a < FONT_ADDRESS + 0 {
                        font_spec(a - FONT_ADDRESS)
                    } else {
                        old(self)@.mem[a]
                    },
            ));
        }
        let mut i: usize = 0;
        while i < FONT_SIZE
            invariant
                old(self)@.wf(),
                self@.wf(),
                i <= FONT_SIZE,
                self@ == (ChipState {
                    mem: Seq::new(
                        MEM_SIZE as nat,
                        |a: int|
                            if FONT_ADDRESS <= a < FONT_ADDRESS + i {
                                font_spec(a - FONT_ADDRESS)
                            } else {
                                old(self)@.mem[a]
                            },
                    ),
                    ..old(self)@
                }),
            decreases FONT_SIZE - i,
        {
            let b = font_byte(i);
            self.memory[FONT_ADDRESS + i] = b;
            proof {
                assert(self@.mem =~= Seq::new(
                    MEM_SIZE as nat,
                    |a: int|
                        if FONT_ADDRESS <= a < FONT_ADDRESS + (i + 1) {
                            font_spec(a - FONT_ADDRESS)
                        } else {
                            old(self)@.mem[a]
                        },
                ));
                assert(self@ =~= (ChipState {
                    mem: Seq::new(
                        MEM_SIZE as nat,
                        |a: int|
                            if FONT_ADDRESS <= a < FONT_ADDRESS + (i + 1) {
                                font_spec(a - FONT_ADDRESS)
                            } else {
                                old(self)@.mem[a]
                            },
                    ),
                    ..old(self)@
                }));
            }
            i += 1;
        }
    }

    /// Place a program image in memory starting at the program start
    /// address, leaving every lower address (the reserved region and the
    /// font table) and every byte past the image untouched. The caller
    /// must have checked that the image fits.
    pub fn load(&mut self, rom: &Vec<u8>)
        requires
            old(self)@.wf(),
            rom@.len() <= MEM_SIZE - PROGRAM_START,
        ensures
            final(self)@.wf(),
            final(self)@ == (ChipState {
                mem: Seq::new(
                    MEM_SIZE as nat,
                    |a: int|
                        if PROGRAM_START <= a < PROGRAM_START + rom@.len() {
                            rom@[a - PROGRAM_START]
                        } else {
                            old(self)@.mem[a]
                        },
                ),
                ..old(self)@
            }),
    {
        proof {
            assert(self@.mem =~= Seq::new(
                MEM_SIZE as nat,
                |a: int|
                    if PROGRAM_START <= a < PROGRAM_START + 0 {
                        rom@[a - PROGRAM_START]
                    } else {
                        old(self)@.mem[a]
                    },
            ));
        }
        let mut i: usize = 0;
        while i < rom.len()
            invariant
                old(self)@.wf(),
                self@.wf(),
                i <= rom@.len() <= MEM_SIZE - PROGRAM_START,
                self@ == (ChipState {
                    mem: Seq::new(
                        MEM_SIZE as nat,
                        |a: int|
                            if PROGRAM_START <= a < PROGRAM_START + i {
                                rom@[a - PROGRAM_START]
                            } else {
                                old(self)@.mem[a]
                            },
                    ),
                    ..old(self)@
                }),
            decreases rom@.len() - i,
        {
            self.memory[PROGRAM_START + i] = rom[i];
            proof {
                assert(self@.mem =~= Seq::new(
                    MEM_SIZE as nat,
                    |a: int|
                        if PROGRAM_START <= a < PROGRAM_START + (i + 1) {
                            rom@[a - PROGRAM_START]
                        } else {
                            old(self)@.mem[a]
                        },
                ));
                assert(self@ =~= (ChipState {
                    mem: Seq::new(
                        MEM_SIZE as nat,
                        |a: int|
                            if PROGRAM_START <= a < PROGRAM_START + (i + 1) {
                                rom@[a - PROGRAM_START]
                            } else {
                                old(self)@.mem[a]
                            },
                    ),
                    ..old(self)@
                }));
            }
            i += 1;
        }
    }

    /// Overwrite the whole input latch, as the input collaborator does
    /// once per cycle; a key is down iff its byte is nonzero.
    pub fn set_input(&mut self, keys: &Vec<u8>)
        requires
            old(self)@.wf(),
            keys@.len() == NUM_KEYS,
        ensures
            final(self)@.wf(),
            final(self)@ == (ChipState { input: keys@, ..old(self)@ }),
    {
        let mut fresh: Vec<u8> = Vec::new();
        let mut i: usize = 0;
        while i < NUM_KEYS
            invariant
                keys@.len() == NUM_KEYS,
                i == fresh@.len() <= NUM_KEYS,
                forall|j: int| 0 <= j < i ==> fresh@[j] == keys@[j],
            decreases NUM_KEYS - i,
        {
            fresh.push(keys[i]);
            i += 1;
        }
        self.input = fresh;
        proof {
            assert(self@.input =~= keys@);
            assert(self@ =~= (ChipState { input: keys@, ..old(self)@ }));
        }
    }

    /// 00E0: clear the framebuffer to all zero.
    pub fn op_00e0(&mut self)
        requires
            old(self)@.wf(),
        ensures
            final(self)@.wf(),
            final(self)@ == old(self)@.cls(),
            forall|i: int| 0 <= i < VRAM_SIZE ==> final(self)@.vram[i] == 0u8,
    {
        self.vram = zero_bytes(VRAM_SIZE);
        proof {
            assert(self@ =~= old(self)@.cls());
        }
    }

    /// 00EE: pop the call stack into the program counter; refused with
    /// `StackUnderflow`, changing nothing, iff the stack is empty.
    pub fn op_00ee(&mut self) -> (r: Result<(), ChipError>)
        requires
            old(self)@.wf(),
        ensures
            final(self)@.wf(),
            old(self)@.sp >= 1 ==> r is Ok && final(self)@ == old(self)@.ret(),
            old(self)@.sp == 0 ==> r == Err::<(), ChipError>(ChipError::StackUnderflow) && final(self)@
                == old(self)@,
    {
        if self.sp == 0 {
            return Err(ChipError::StackUnderflow);
        }
        self.sp = self.sp - 1;
        self.pc = self.stack[self.sp] as usize;
        proof {
            assert(self@ =~= old(self)@.ret());
        }
        Ok(())
    }

    /// 1nnn: absolute jump.
    pub fn op_1nnn(&mut self, nnn: usize)
        requires
            old(self)@.wf(),
            nnn < 0x1000,
        ensures
            final(self)@.wf(),
            final(self)@ == old(self)@.jump(nnn as u16),
    {
        self.pc = nnn;
        proof {
            assert(self@ =~= old(self)@.jump(nnn as u16));
        }
    }

    /// 2nnn: push the program counter, then jump to nnn; refused with
    /// `StackOverflow`, changing nothing, iff the stack is full.
    pub fn op_2nnn(&mut self, nnn: usize) -> (r: Result<(), ChipError>)
        requires
            old(self)@.wf(),
            nnn < 0x1000,
            old(self)@.pc <= 0xFFFF,
        ensures
            final(self)@.wf(),
            old(self)@.sp < STACK_DEPTH ==> r is Ok && final(self)@ == old(self)@.call(nnn as u16),
            old(self)@.sp == STACK_DEPTH ==> r == Err::<(), ChipError>(ChipError::StackOverflow)
                && final(self)@ == old(self)@,
    {
        if self.sp >= STACK_DEPTH {
            return Err(ChipError::StackOverflow);
        }
        self.stack[self.sp] = self.pc as u16;
        self.sp = self.sp + 1;
        self.pc = nnn;
        proof {
            assert(self@ =~= old(self)@.call(nnn as u16));
        }
        Ok(())
    }

    /// 3xkk: skip the next instruction iff reg[x] == kk.
    pub fn op_3xkk(&mut self, x: usize, kk: u8)
        requires
            old(self)@.wf(),
            x < NUM_REGS,
            old(self)@.pc + 2 <= usize::MAX,
        ensures
            final(self)@.wf(),
            final(self)@ == old(self)@.skip_if(old(self)@.regs[x as int] == kk),
    {
        if self.registers[x] == kk {
            self.pc = self.pc + 2;
        }
        proof {
            assert(self@ =~= old(self)@.skip_if(old(self)@.regs[x as int] == kk));
        }
    }

    /// 4xkk: skip the next instruction iff reg[x] != kk.
    pub fn op_4xkk(&mut self, x: usize, kk: u8)
        requires
            old(self)@.wf(),
            x < NUM_REGS,
            old(self)@.pc + 2 <= usize::MAX,
        ensures
            final(self)@.wf(),
            final(self)@ == old(self)@.skip_if(old(self)@.regs[x as int] != kk),
    {
        if self.registers[x] != kk {
            self.pc = self.pc + 2;
        }
        proof {
            assert(self@ =~= old(self)@.skip_if(old(self)@.regs[x as int] != kk));
        }
    }

    /// 5xy0: skip the next instruction iff reg[x] == reg[y].
    pub fn op_5xy0(&mut self, x: usize, y: usize)
        requires
            old(self)@.wf(),
            x < NUM_REGS,
            y < NUM_REGS,
            old(self)@.pc + 2 <= usize::MAX,
        ensures
            final(self)@.wf(),
            final(self)@ == old(self)@.skip_if(old(self)@.regs[x as int] == old(self)@.regs[y as int]),
    {
        if self.registers[x] == self.registers[y] {
            self.pc = self.pc + 2;
        }
        proof {
            assert(self@ =~= old(self)@.skip_if(
                old(self)@.regs[x as int] == old(self)@.regs[y as int],
            ));
        }
    }

    /// 6xkk: reg[x] = kk.
    pub fn op_6xkk(&mut self, x: usize, kk: u8)
        requires
            old(self)@.wf(),
            x < NUM_REGS,
        ensures
            final(self)@.wf(),
            final(self)@ == old(self)@.load_imm(x as int, kk),
            final(self)@.regs[x as int] == kk,
    {
        self.registers[x] = kk;
        proof {
            assert(self@ =~= old(self)@.load_imm(x as int, kk));
        }
    }

    /// 7xkk: reg[x] += kk truncated to 8 bits; no flag output.
    pub fn op_7xkk(&mut self, x: usize, kk: u8)
        requires
            old(self)@.wf(),
            x < NUM_REGS,
        ensures
            final(self)@.wf(),
            final(self)@ == old(self)@.add_imm(x as int, kk),
    {
        let vx = self.registers[x];
        let sum: u16 = vx as u16 + kk as u16;
        self.registers[x] = if sum > 255 {
            (sum - 256) as u8
        } else {
            sum as u8
        };
        proof {
            assert(self@ =~= old(self)@.add_imm(x as int, kk));
        }
    }

    /// 8xy0: reg[x] = reg[y].
    pub fn op_8xy0(&mut self, x: usize, y: usize)
        requires
            old(self)@.wf(),
            x < NUM_REGS,
            y < NUM_REGS,
        ensures
            final(self)@.wf(),
            final(self)@ == old(self)@.mov(x as int, y as int),
    {
        self.registers[x] = self.registers[y];
        proof {
            assert(self@ =~= old(self)@.mov(x as int, y as int));
        }
    }

    /// 8xy1: reg[x] |= reg[y].
    pub fn op_8xy1(&mut self, x: usize, y: usize)
        requires
            old(self)@.wf(),
            x < NUM_REGS,
            y < NUM_REGS,
        ensures
            final(self)@.wf(),
            final(self)@ == old(self)@.or(x as int, y as int),
    {
        self.registers[x] = self.registers[x] | self.registers[y];
        proof {
            assert(self@ =~= old(self)@.or(x as int, y as int));
        }
    }

    /// 8xy2: reg[x] &= reg[y].
    pub fn op_8xy2(&mut self, x: usize, y: usize)
        requires
            old(self)@.wf(),
            x < NUM_REGS,
            y < NUM_REGS,
        ensures
            final(self)@.wf(),
            final(self)@ == old(self)@.and(x as int, y as int),
    {
        self.registers[x] = self.registers[x] & self.registers[y];
        proof {
            assert(self@ =~= old(self)@.and(x as int, y as int));
        }
    }

    /// 8xy3: reg[x] ^= reg[y].
    pub fn op_8xy3(&mut self, x: usize, y: usize)
        requires
            old(self)@.wf(),
            x < NUM_REGS,
            y < NUM_REGS,
        ensures
            final(self)@.wf(),
            final(self)@ == old(self)@.xor(x as int, y as int),
    {
        self.registers[x] = self.registers[x] ^ self.registers[y];
        proof {
            assert(self@ =~= old(self)@.xor(x as int, y as int));
        }
    }

    /// 8xy4: reg[x] takes the low 8 bits of the widened sum reg[x]+reg[y];
    /// the flag register then takes 1 iff the sum overflowed 8 bits, else 0.
    pub fn op_8xy4(&mut self, x: usize, y: usize)
        requires
            old(self)@.wf(),
            x < NUM_REGS,
            y < NUM_REGS,
        ensures
            final(self)@.wf(),
            final(self)@ == old(self)@.add_reg(x as int, y as int),
            final(self)@.regs[FLAG_REG as int] == (if old(self)@.regs[x as int] + old(self)@.regs[y as int]
                > 255 {
                1u8
            } else {
                0u8
            }),
    {
        let vx = self.registers[x];
        let vy = self.registers[y];
        let sum: u16 = vx as u16 + vy as u16;
        self.registers[x] = if sum > 255 {
            (sum - 256) as u8
        } else {
            sum as u8
        };
        self.registers[FLAG_REG] = if sum > 255 {
            1
        } else {
            0
        };
        proof {
            assert(self@ =~= old(self)@.add_reg(x as int, y as int));
        }
    }

    /// 8xy5: the flag register takes 1 iff reg[x] > reg[y] (no borrow),
    /// then reg[x] -= reg[y] with 8-bit wraparound.
    pub fn op_8xy5(&mut self, x: usize, y: usize)
        requires
            old(self)@.wf(),
            x < NUM_REGS,
            y < NUM_REGS,
        ensures
            final(self)@.wf(),
            final(self)@ == old(self)@.sub_reg(x as int, y as int),
    {
        self.registers[FLAG_REG] = if self.registers[x] > self.registers[y] {
            1
        } else {
            0
        };
        let vx = self.registers[x];
        let vy = self.registers[y];
        self.registers[x] = byte_sub_wrap(vx, vy);
        proof {
            assert(self@ =~= old(self)@.sub_reg(x as int, y as int));
        }
    }

    /// 8xy6: the flag register takes the pre-shift low bit of reg[x], then
    /// reg[x] >>= 1.
    pub fn op_8xy6(&mut self, x: usize, _y: usize)
        requires
            old(self)@.wf(),
            x < NUM_REGS,
        ensures
            final(self)@.wf(),
            final(self)@ == old(self)@.shr(x as int),
    {
        self.registers[FLAG_REG] = self.registers[x] & 1;
        let vx = self.registers[x];
        self.registers[x] = vx >> 1u8;
        proof {
            assert(self@ =~= old(self)@.shr(x as int));
        }
    }

    /// 8xy7: the flag register takes 1 iff reg[y] > reg[x] (no borrow),
    /// then reg[x] = reg[y] - reg[x] with 8-bit wraparound.
    pub fn op_8xy7(&mut self, x: usize, y: usize)
        requires
            old(self)@.wf(),
            x < NUM_REGS,
            y < NUM_REGS,
        ensures
            final(self)@.wf(),
            final(self)@ == old(self)@.sub_rev(x as int, y as int),
    {
        self.registers[FLAG_REG] = if self.registers[y] > self.registers[x] {
            1
        } else {
            0
        };
        let vx = self.registers[x];
        let vy = self.registers[y];
        self.registers[x] = byte_sub_wrap(vy, vx);
        proof {
            assert(self@ =~= old(self)@.sub_rev(x as int, y as int));
        }
    }

    /// 8xyE: the flag register takes the pre-shift high bit of reg[x],
    /// then reg[x] <<= 1 with 8-bit truncation.
    pub fn op_8xye(&mut self, x: usize, _y: usize)
        requires
            old(self)@.wf(),
            x < NUM_REGS,
        ensures
            final(self)@.wf(),
            final(self)@ == old(self)@.shl(x as int),
    {
        self.registers[FLAG_REG] = (self.registers[x] & 0x80) >> 7u8;
        let vx = self.registers[x];
        self.registers[x] = vx << 1u8;
        proof {
            assert(self@ =~= old(self)@.shl(x as int));
        }
    }

    /// 9xy0: skip the next instruction iff reg[x] != reg[y].
    pub fn op_9xy0(&mut self, x: usize, y: usize)
        requires
            old(self)@.wf(),
            x < NUM_REGS,
            y < NUM_REGS,
            old(self)@.pc + 2 <= usize::MAX,
        ensures
            final(self)@.wf(),
            final(self)@ == old(self)@.skip_if(old(self)@.regs[x as int] != old(self)@.regs[y as int]),
    {
        if self.registers[x] != self.registers[y] {
            self.pc = self.pc + 2;
        }
        proof {
            assert(self@ =~= old(self)@.skip_if(
                old(self)@.regs[x as int] != old(self)@.regs[y as int],
            ));
        }
    }

    /// Annn: index register = nnn.
    pub fn op_annn(&mut self, nnn: usize)
        requires
            old(self)@.wf(),
            nnn < 0x1000,
        ensures
            final(self)@.wf(),
            final(self)@ == old(self)@.load_index(nnn as u16),
    {
        self.index_register = nnn;
        proof {
            assert(self@ =~= old(self)@.load_index(nnn as u16));
        }
    }

    /// Bnnn: jump to nnn + reg[0].
    pub fn op_bnnn(&mut self, nnn: usize)
        requires
            old(self)@.wf(),
            nnn < 0x1000,
        ensures
            final(self)@.wf(),
            final(self)@ == old(self)@.jump_offset(nnn as u16),
    {
        self.pc = nnn + self.registers[0] as usize;
        proof {
            assert(self@ =~= old(self)@.jump_offset(nnn as u16));
        }
    }

    /// Cxkk: reg[x] takes a freshly drawn random byte masked with kk. The
    /// contract fixes everything except which byte was drawn.
    pub fn op_cxkk(&mut self, x: usize, kk: u8)
        requires
            old(self)@.wf(),
            x < NUM_REGS,
        ensures
            final(self)@.wf(),
            exists|b: u8| final(self)@ == old(self)@.rand_mask(x as int, kk, b),
    {
        let b: u8 = rand::random();
        self.registers[x] = b & kk;
        proof {
            assert(self@ =~= old(self)@.rand_mask(x as int, kk, b));
            assert(self@ == old(self)@.rand_mask(x as int, kk, b));
        }
    }

    /// Ex9E: skip the next instruction iff the key indexed by reg[x] is
    /// down; refused with `OutOfBoundsAccess`, changing nothing, iff
    /// reg[x] is no key index.
    pub fn op_ex9e(&mut self, x: usize) -> (r: Result<(), ChipError>)
        requires
            old(self)@.wf(),
            x < NUM_REGS,
            old(self)@.pc + 2 <= usize::MAX,
        ensures
            final(self)@.wf(),
            old(self)@.regs[x as int] < NUM_KEYS ==> r is Ok && final(self)@ == old(self)@.skip_if(
                old(self)@.input[old(self)@.regs[x as int] as int] != 0,
            ),
            old(self)@.regs[x as int] >= NUM_KEYS ==> r == Err::<(), ChipError>(
                ChipError::OutOfBoundsAccess,
            ) && final(self)@ == old(self)@,
    {
        let k = self.registers[x] as usize;
        if k >= NUM_KEYS {
            return Err(ChipError::OutOfBoundsAccess);
        }
        if self.input[k] != 0 {
            self.pc = self.pc + 2;
        }
        proof {
            assert(self@ =~= old(self)@.skip_if(
                old(self)@.input[old(self)@.regs[x as int] as int] != 0,
            ));
        }
        Ok(())
    }

    /// ExA1: skip the next instruction iff the key indexed by reg[x] is
    /// up; refused with `OutOfBoundsAccess`, changing nothing, iff reg[x]
    /// is no key index.
    pub fn op_exa1(&mut self, x: usize) -> (r: Result<(), ChipError>)
        requires
            old(self)@.wf(),
            x < NUM_REGS,
            old(self)@.pc + 2 <= usize::MAX,
        ensures
            final(self)@.wf(),
            old(self)@.regs[x as int] < NUM_KEYS ==> r is Ok && final(self)@ == old(self)@.skip_if(
                old(self)@.input[old(self)@.regs[x as int] as int] == 0,
            ),
            old(self)@.regs[x as int] >= NUM_KEYS ==> r == Err::<(), ChipError>(
                ChipError::OutOfBoundsAccess,
            ) && final(self)@ == old(self)@,
    {
        let k = self.registers[x] as usize;
        if k >= NUM_KEYS {
            return Err(ChipError::OutOfBoundsAccess);
        }
        if self.input[k] == 0 {
            self.pc = self.pc + 2;
        }
        proof {
            assert(self@ =~= old(self)@.skip_if(
                old(self)@.input[old(self)@.regs[x as int] as int] == 0,
            ));
        }
        Ok(())
    }

    /// Fx07: reg[x] = delay timer.
    pub fn op_fx07(&mut self, x: usize)
        requires
            old(self)@.wf(),
            x < NUM_REGS,
        ensures
            final(self)@.wf(),
            final(self)@ == old(self)@.read_delay(x as int),
    {
        self.registers[x] = self.delay_timer;
        proof {
            assert(self@ =~= old(self)@.read_delay(x as int));
        }
    }

    /// Fx15: delay timer = reg[x].
    pub fn op_fx15(&mut self, x: usize)
        requires
            old(self)@.wf(),
            x < NUM_REGS,
        ensures
            final(self)@.wf(),
            final(self)@ == old(self)@.set_delay(x as int),
    {
        self.delay_timer = self.registers[x];
        proof {
            assert(self@ =~= old(self)@.set_delay(x as int));
        }
    }

    /// Fx18: sound timer = reg[x].
    pub fn op_fx18(&mut self, x: usize)
        requires
            old(self)@.wf(),
            x < NUM_REGS,
        ensures
            final(self)@.wf(),
            final(self)@ == old(self)@.set_sound(x as int),
    {
        self.sound_timer = self.registers[x];
        proof {
            assert(self@ =~= old(self)@.set_sound(x as int));
        }
    }

    /// Fx1E: index register += reg[x], widened, no flag; refused with
    /// `OutOfBoundsAccess`, changing nothing, in the (unreachable in
    /// practice) case that the sum no longer fits the host address word.
    pub fn op_fx1e(&mut self, x: usize) -> (r: Result<(), ChipError>)
        requires
            old(self)@.wf(),
            x < NUM_REGS,
        ensures
            final(self)@.wf(),
            old(self)@.index + old(self)@.regs[x as int] <= usize::MAX ==> r is Ok && final(self)@ == old(
                self,
            )@.add_index(x as int),
            old(self)@.index + old(self)@.regs[x as int] > usize::MAX ==> r == Err::<
                (),
                ChipError,
            >(ChipError::OutOfBoundsAccess) && final(self)@ == old(self)@,
    {
        let vx = self.registers[x] as usize;
        if self.index_register > usize::MAX - vx {
            return Err(ChipError::OutOfBoundsAccess);
        }
        self.index_register = self.index_register + vx;
        proof {
            assert(self@ =~= old(self)@.add_index(x as int));
        }
        Ok(())
    }

    /// Fx29: point the index register at the font glyph for digit reg[x].
    pub fn op_fx29(&mut self, x: usize)
        requires
            old(self)@.wf(),
            x < NUM_REGS,
        ensures
            final(self)@.wf(),
            final(self)@ == old(self)@.font_index(x as int),
    {
        self.index_register = FONT_ADDRESS + 5 * (self.registers[x] as usize);
        proof {
            assert(self@ =~= old(self)@.font_index(x as int));
        }
    }

    /// Fx33: write the three decimal digits of reg[x] (hundreds, tens,
    /// ones) to memory at the index register; refused with
    /// `OutOfBoundsAccess`, changing nothing, iff the three target bytes
    /// do not all lie in memory.
    pub fn op_fx33(&mut self, x: usize) -> (r: Result<(), ChipError>)
        requires
            old(self)@.wf(),
            x < NUM_REGS,
        ensures
            final(self)@.wf(),
            old(self)@.index + 2 < MEM_SIZE ==> r is Ok && final(self)@ == old(self)@.bcd(x as int),
            old(self)@.index + 2 >= MEM_SIZE ==> r == Err::<(), ChipError>(
                ChipError::OutOfBoundsAccess,
            ) && final(self)@ == old(self)@,
    {
        if self.index_register >= MEM_SIZE - 2 {
            return Err(ChipError::OutOfBoundsAccess);
        }
        let vx = self.registers[x];
        self.memory[self.index_register] = vx / 100;
        self.memory[self.index_register + 1] = (vx % 100) / 10;
        self.memory[self.index_register + 2] = vx % 10;
        proof {
            assert(self@ =~= old(self)@.bcd(x as int));
        }
        Ok(())
    }

    /// Dxyn: clear the flag register, then draw the n-row sprite at memory
    /// [index..index+n] at (reg[x], reg[y]), xor-ing each sprite bit into
    /// the framebuffer with coordinates wrapping modulo 64 and 32, and
    /// or-ing every collision into the flag register; refused with
    /// `OutOfBoundsAccess`, changing nothing, iff some sprite byte would
    /// be read from outside memory.
    pub fn op_dxyn(&mut self, x: usize, y: usize, n: usize) -> (r: Result<(), ChipError>)
        requires
            old(self)@.wf(),
            x < NUM_REGS,
            y < NUM_REGS,
            n < 16,
        ensures
            final(self)@.wf(),
            n == 0 || old(self)@.index + n <= MEM_SIZE ==> r is Ok && final(self)@ == old(
                self,
            )@.draw(x as int, y as int, n as int),
            n > 0 && old(self)@.index + n > MEM_SIZE ==> r == Err::<(), ChipError>(
                ChipError::OutOfBoundsAccess,
            ) && final(self)@ == old(self)@,
    {
        if n > 0 && self.index_register > MEM_SIZE - n {
            return Err(ChipError::OutOfBoundsAccess);
        }
        self.registers[FLAG_REG] = 0;
        let ghost s0 = self@;
        proof {
            assert(s0 =~= (ChipState {
                regs: old(self)@.regs.update(FLAG_REG as int, 0u8),
                ..old(self)@
            }));
        }
        let mut row: usize = 0;
        while row < n
            invariant
                old(self)@.wf(),
                self@.wf(),
                x < NUM_REGS,
                y < NUM_REGS,
                n < 16,
                row <= n,
                n == 0 || old(self)@.index + n <= MEM_SIZE,
                self@.index == old(self)@.index,
                self@.mem == old(self)@.mem,
                self@ == s0.draw_rows(x as int, y as int, row as int),
            decreases n - row,
        {
            let yy = (self.registers[y] as usize + row) % SCREEN_HEIGHT;
            let ghost s_row = self@;
            let mut bit: usize = 0;
            while bit < 8
                invariant
                    old(self)@.wf(),
                    self@.wf(),
                    x < NUM_REGS,
                    y < NUM_REGS,
                    n < 16,
                    row < n,
                    bit <= 8,
                    yy < SCREEN_HEIGHT,
                    old(self)@.index + n <= MEM_SIZE,
                    self@.index == old(self)@.index,
                    self@.mem == old(self)@.mem,
                    self@ == s_row.draw_bits(x as int, row as int, yy as int, bit as int),
                decreases 8 - bit,
            {
                let ghost prev = self@;
                let xx = (self.registers[x] as usize + bit) % SCREEN_WIDTH;
                let shift: u8 = (7 - bit) as u8;
                let color = (self.memory[self.index_register + row] >> shift) & 1;
                let pix = yy * SCREEN_WIDTH + xx;
                let cur = self.vram[pix];
                self.registers[FLAG_REG] = self.registers[FLAG_REG] | (color & cur);
                self.vram[pix] = cur ^ color;
                proof {
                    assert(self@ =~= prev.draw_bit(x as int, row as int, yy as int, bit as int));
                    assert(self@ == s_row.draw_bits(
                        x as int,
                        row as int,
                        yy as int,
                        bit as int + 1,
                    ));
                }
                bit += 1;
            }
            proof {
                assert(self@ == s0.draw_rows(x as int, y as int, row as int + 1));
            }
            row += 1;
        }
        proof {
            assert(self@ == old(self)@.draw(x as int, y as int, n as int));
        }
        Ok(())
    }

    /// Fx0A: scan the input latch; if some key's byte is exactly 1, reg[x]
    /// takes the highest such key index and the cycle completes normally;
    /// if none is, rewind the program counter over this instruction so the
    /// next cycle re-executes it.
    pub fn op_fx0a(&mut self, x: usize)
        requires
            old(self)@.wf(),
            x < NUM_REGS,
            old(self)@.pc >= 2,
        ensures
            final(self)@.wf(),
            final(self)@ == old(self)@.wait_key(x as int),
    {
        let mut changed = false;
        let mut i: usize = 0;
        while i < NUM_KEYS
            invariant
                old(self)@.wf(),
                self@.wf(),
                x < NUM_REGS,
                i <= NUM_KEYS,
                self@.pc == old(self)@.pc,
                match scan_key(old(self)@.input, i as int) {
                    Some(k) => changed && self@ == (ChipState {
                        regs: old(self)@.regs.update(x as int, k as u8),
                        ..old(self)@
                    }),
                    None => !changed && self@ == old(self)@,
                },
            decreases NUM_KEYS - i,
        {
            let ghost prev = self@;
            if self.input[i] == 1 {
                changed = true;
                self.registers[x] = i as u8;
                proof {
                    assert(self@ =~= (ChipState {
                        regs: old(self)@.regs.update(x as int, i as u8),
                        ..old(self)@
                    }));
                }
            }
            i += 1;
        }
        if !changed {
            self.pc = self.pc - 2;
        }
        proof {
            assert(self@ =~= old(self)@.wait_key(x as int));
        }
    }

    /// Fx55: store reg[0]..=reg[x] to memory at the index register;
    /// refused with `OutOfBoundsAccess`, changing nothing, iff some target
    /// byte lies outside memory.
    pub fn op_fx55(&mut self, x: usize) -> (r: Result<(), ChipError>)
        requires
            old(self)@.wf(),
            x < NUM_REGS,
        ensures
            final(self)@.wf(),
            old(self)@.index + x < MEM_SIZE ==> r is Ok && final(self)@ == old(self)@.store_regs(
                x as int,
            ),
            old(self)@.index + x >= MEM_SIZE ==> r == Err::<(), ChipError>(
                ChipError::OutOfBoundsAccess,
            ) && final(self)@ == old(self)@,
    {
        if self.index_register > MEM_SIZE - 1 - x {
            return Err(ChipError::OutOfBoundsAccess);
        }
        proof {
            assert(self@.mem =~= Seq::new(
                MEM_SIZE as nat,
                |a: int|
                    if old(self)@.index <= a < old(self)@.index + 0 {
                        old(self)@.regs[a - old(self)@.index]
                    } else {
                        old(self)@.mem[a]
                    },
            ));
            assert(self@ =~= (ChipState {
                mem: Seq::new(
                    MEM_SIZE as nat,
                    |a: int|
                        if old(self)@.index <= a < old(self)@.index + 0 {
                            old(self)@.regs[a - old(self)@.index]
                        } else {
                            old(self)@.mem[a]
                        },
                ),
                ..old(self)@
            }));
        }
        let mut i: usize = 0;
        while i <= x
            invariant
                old(self)@.wf(),
                self@.wf(),
                x < NUM_REGS,
                i <= x + 1,
                old(self)@.index + x < MEM_SIZE,
                self@.index == old(self)@.index,
                self@ == (ChipState {
                    mem: Seq::new(
                        MEM_SIZE as nat,
                        |a: int|
                            if old(self)@.index <= a < old(self)@.index + i {
                                old(self)@.regs[a - old(self)@.index]
                            } else {
                                old(self)@.mem[a]
                            },
                    ),
                    ..old(self)@
                }),
            decreases x + 1 - i,
        {
            self.memory[self.index_register + i] = self.registers[i];
            proof {
                assert(self@.mem =~= Seq::new(
                    MEM_SIZE as nat,
                    |a: int|
                        if old(self)@.index <= a < old(self)@.index + (i + 1) {
                            old(self)@.regs[a - old(self)@.index]
                        } else {
                            old(self)@.mem[a]
                        },
                ));
                assert(self@ =~= (ChipState {
                    mem: Seq::new(
                        MEM_SIZE as nat,
                        |a: int|
                            if old(self)@.index <= a < old(self)@.index + (i + 1) {
                                old(self)@.regs[a - old(self)@.index]
                            } else {
                                old(self)@.mem[a]
                            },
                    ),
                    ..old(self)@
                }));
            }
            i += 1;
        }
        proof {
            assert(self@ =~= old(self)@.store_regs(x as int));
        }
        Ok(())
    }

    /// Fx65: load reg[0]..=reg[x] from memory at the index register;
    /// refused with `OutOfBoundsAccess`, changing nothing, iff some source
    /// byte lies outside memory.
    pub fn op_fx65(&mut self, x: usize) -> (r: Result<(), ChipError>)
        requires
            old(self)@.wf(),
            x < NUM_REGS,
        ensures
            final(self)@.wf(),
            old(self)@.index + x < MEM_SIZE ==> r is Ok && final(self)@ == old(self)@.load_regs(
                x as int,
            ),
            old(self)@.index + x >= MEM_SIZE ==> r == Err::<(), ChipError>(
                ChipError::OutOfBoundsAccess,
            ) && final(self)@ == old(self)@,
    {
        if self.index_register > MEM_SIZE - 1 - x {
            return Err(ChipError::OutOfBoundsAccess);
        }
        proof {
            assert(self@.regs =~= Seq::new(
                NUM_REGS as nat,
                |j: int|
                    if j < 0 {
                        old(self)@.mem[old(self)@.index + j]
                    } else {
                        old(self)@.regs[j]
                    },
            ));
            assert(self@ =~= (ChipState {
                regs: Seq::new(
                    NUM_REGS as nat,
                    |j: int|
                        if j < 0 {
                            old(self)@.mem[old(self)@.index + j]
                        } else {
                            old(self)@.regs[j]
                        },
                ),
                ..old(self)@
            }));
        }
        let mut i: usize = 0;
        while i <= x
            invariant
                old(self)@.wf(),
                self@.wf(),
                x < NUM_REGS,
                i <= x + 1,
                old(self)@.index + x < MEM_SIZE,
                self@.index == old(self)@.index,
                self@ == (ChipState {
                    regs: Seq::new(
                        NUM_REGS as nat,
                        |j: int|
                            if j < i {
                                old(self)@.mem[old(self)@.index + j]
                            } else {
                                old(self)@.regs[j]
                            },
                    ),
                    ..old(self)@
                }),
            decreases x + 1 - i,
        {
            self.registers[i] = self.memory[self.index_register + i];
            proof {
                assert(self@.regs =~= Seq::new(
                    NUM_REGS as nat,
                    |j: int|
                        if j < i + 1 {
                            old(self)@.mem[old(self)@.index + j]
                        } else {
                            old(self)@.regs[j]
                        },
                ));
                assert(self@ =~= (ChipState {
                    regs: Seq::new(
                        NUM_REGS as nat,
                        |j: int|
                            if j < i + 1 {
                                old(self)@.mem[old(self)@.index + j]
                            } else {
                                old(self)@.regs[j]
                            },
                    ),
                    ..old(self)@
                }));
            }
            i += 1;
        }
        proof {
            assert(self@.regs =~= old(self)@.load_regs(x as int).regs);
            assert(self@ =~= old(self)@.load_regs(x as int));
        }
        Ok(())
    }

    /// Decode the opcode word fetched by the current cycle and run exactly
    /// one handler; unmatched patterns execute as a no-op. The relation
    /// `exec_rel` pins the outcome for every opcode: the only freedom is
    /// which byte a random-byte instruction drew.
    pub fn run_opcode(&mut self) -> (r: Result<(), ChipError>)
        requires
            old(self)@.wf(),
            op_requires(old(self)@, old(self)@.opcode),
        ensures
            final(self)@.wf(),
            exists|rnd: u8| exec_rel(old(self)@, final(self)@, r, rnd),
    {
        proof {
            lemma_decode_operands_in_range(self@.opcode);
        }
        let instr = decode(self.opcode);
        let r: Result<(), ChipError> = match instr {
            Instr::Cls => {
                self.op_00e0();
                Ok(())
            },
            Instr::Ret => self.op_00ee(),
            Instr::Jump(nnn) => {
                self.op_1nnn(nnn as usize);
                Ok(())
            },
            Instr::Call(nnn) => self.op_2nnn(nnn as usize),
            Instr::SkipEqImm(x, kk) => {
                self.op_3xkk(x, kk);
                Ok(())
            },
            Instr::SkipNeImm(x, kk) => {
                self.op_4xkk(x, kk);
                Ok(())
            },
            Instr::SkipEqReg(x, y) => {
                self.op_5xy0(x, y);
                Ok(())
            },
            Instr::LoadImm(x, kk) => {
                self.op_6xkk(x, kk);
                Ok(())
            },
            Instr::AddImm(x, kk) => {
                self.op_7xkk(x, kk);
                Ok(())
            },
            Instr::Move(x, y) => {
                self.op_8xy0(x, y);
                Ok(())
            },
            Instr::Or(x, y) => {
                self.op_8xy1(x, y);
                Ok(())
            },
            Instr::And(x, y) => {
                self.op_8xy2(x, y);
                Ok(())
            },
            Instr::Xor(x, y) => {
                self.op_8xy3(x, y);
                Ok(())
            },
            Instr::Add(x, y) => {
                self.op_8xy4(x, y);
                Ok(())
            },
            Instr::Sub(x, y) => {
                self.op_8xy5(x, y);
                Ok(())
            },
            Instr::Shr(x) => {
                self.op_8xy6(x, 0);
                Ok(())
            },
            Instr::SubRev(x, y) => {
                self.op_8xy7(x, y);
                Ok(())
            },
            Instr::Shl(x) => {
                self.op_8xye(x, 0);
                Ok(())
            },
            Instr::SkipNeReg(x, y) => {
                self.op_9xy0(x, y);
                Ok(())
            },
            Instr::LoadIndex(nnn) => {
                self.op_annn(nnn as usize);
                Ok(())
            },
            Instr::JumpOffset(nnn) => {
                self.op_bnnn(nnn as usize);
                Ok(())
            },
            Instr::Random(x, kk) => {
                self.op_cxkk(x, kk);
                Ok(())
            },
            Instr::Draw(x, y, n) => self.op_dxyn(x, y, n),
            Instr::SkipKey(x) => self.op_ex9e(x),
            Instr::SkipNoKey(x) => self.op_exa1(x),
            Instr::ReadDelay(x) => {
                self.op_fx07(x);
                Ok(())
            },
            Instr::WaitKey(x) => {
                self.op_fx0a(x);
                Ok(())
            },
            Instr::SetDelay(x) => {
                self.op_fx15(x);
                Ok(())
            },
            Instr::SetSound(x) => {
                self.op_fx18(x);
                Ok(())
            },
            Instr::AddIndex(x) => self.op_fx1e(x),
            Instr::FontIndex(x) => {
                self.op_fx29(x);
                Ok(())
            },
            Instr::Bcd(x) => self.op_fx33(x),
            Instr::StoreRegs(x) => self.op_fx55(x),
            Instr::LoadRegs(x) => self.op_fx65(x),
            Instr::Nop => Ok(()),
        };
        proof {
            if let Instr::Random(x, kk) = spec_decode(old(self)@.opcode) {
                let b = choose|b: u8| self@ == old(self)@.rand_mask(x as int, kk, b);
                assert(exec_rel(old(self)@, self@, r, b));
            } else {
                assert(exec_rel(old(self)@, self@, r, 0u8));
            }
        }
        r
    }

    /// One whole machine cycle: fetch the two bytes at the program
    /// counter, compose them big-endian into the opcode word, advance the
    /// program counter over them, run the decoded instruction, then tick
    /// both timers down by one, saturating at zero. A fetch outside memory
    /// is refused and changes nothing; a refused instruction keeps the
    /// fetch's effects, executes nothing and does not tick the timers.
    pub fn cycle(&mut self) -> (r: Result<(), ChipError>)
        requires
            old(self)@.wf(),
        ensures
            final(self)@.wf(),
            exists|rnd: u8| step_rel(old(self)@, final(self)@, r, rnd),
    {
        if self.pc >= MEM_SIZE - 1 {
            proof {
                assert(step_rel(
                    old(self)@,
                    self@,
                    Err::<(), ChipError>(ChipError::OutOfBoundsAccess),
                    0u8,
                ));
            }
            return Err(ChipError::OutOfBoundsAccess);
        }
        let hi = self.memory[self.pc];
        let lo = self.memory[self.pc + 1];
        self.opcode = ((hi as u16) << 8u16) | (lo as u16);
        self.pc = self.pc + 2;
        let ghost s1 = self@;
        proof {
            assert(s1 =~= (ChipState {
                opcode: fetched(old(self)@),
                pc: old(self)@.pc + 2,
                ..old(self)@
            }));
            assert(op_requires(s1, s1.opcode));
        }
        let res = self.run_opcode();
        let ghost post1 = self@;
        let ghost rnd_used = choose|b: u8| exec_rel(s1, post1, res, b);
        match res {
            Err(e) => {
                proof {
                    assert(step_rel(old(self)@, self@, Err::<(), ChipError>(e), rnd_used));
                }
                Err(e)
            },
            Ok(_) => {
                if self.delay_timer > 0 {
                    self.delay_timer = self.delay_timer - 1;
                }
                if self.sound_timer > 0 {
                    self.sound_timer = self.sound_timer - 1;
                }
                proof {
                    assert(self@ =~= post1.tick_timers());
                    assert(step_rel(old(self)@, self@, Ok::<(), ChipError>(()), rnd_used));
                }
                Ok(())
            },
        }
    }

    /// The framebuffer pixel at column `x` of row `y`: 0 is off, 1 is on.
    pub fn pixel(&self, x: usize, y: usize) -> (r: u8)
        requires
            self@.wf(),
            x < SCREEN_WIDTH,
            y < SCREEN_HEIGHT,
        ensures
            r == self@.vram[y * (SCREEN_WIDTH as int) + x],
    {
        self.vram[y * SCREEN_WIDTH + x]
    }

    /// General-purpose register `i`.
    pub fn reg(&self, i: usize) -> (r: u8)
        requires
            self@.wf(),
            i < NUM_REGS,
        ensures
            r == self@.regs[i as int],
    {
        self.registers[i]
    }

    /// The memory byte at address `a`.
    pub fn mem_at(&self, a: usize) -> (r: u8)
        requires
            self@.wf(),
            a < MEM_SIZE,
        ensures
            r == self@.mem[a as int],
    {
        self.memory[a]
    }

    /// The program counter.
    pub fn pc(&self) -> (r: usize)
        ensures
            r == self@.pc,
    {
        self.pc
    }

    /// The stack pointer: the number of live call-stack slots.
    pub fn sp(&self) -> (r: usize)
        ensures
            r == self@.sp,
    {
        self.sp
    }

    /// The index register.
    pub fn index(&self) -> (r: usize)
        ensures
            r == self@.index,
    {
        self.index_register
    }

    /// The delay timer.
    pub fn delay(&self) -> (r: u8)
        ensures
            r == self@.delay,
    {
        self.delay_timer
    }

    /// The sound timer.
    pub fn sound(&self) -> (r: u8)
        ensures
            r == self@.sound,
    {
        self.sound_timer
    }
}

} // verus!

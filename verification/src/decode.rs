//! Instruction decoding: a 16-bit opcode word is split into four 4-bit
//! nibbles and turned into a discriminated instruction value. Nibble
//! patterns that match no instruction decode to `Instr::Nop`, which the
//! interpreter executes as doing nothing.

use vstd::prelude::*;

verus! {

/// A decoded instruction. Register operands are indices below 16, `nnn` is
/// a 12-bit address, `kk` an 8-bit immediate and `n` a 4-bit sprite height.
#[derive(Clone, Copy, Debug, PartialEq, Eq, Structural)]
pub enum Instr {
    /// 00E0: clear the framebuffer.
    Cls,
    /// 00EE: pop the call stack into the program counter.
    Ret,
    /// 1nnn: absolute jump.
    Jump(u16),
    /// 2nnn: push the program counter, then jump.
    Call(u16),
    /// 3xkk: skip the next instruction if reg[x] == kk.
    SkipEqImm(usize, u8),
    /// 4xkk: skip the next instruction if reg[x] != kk.
    SkipNeImm(usize, u8),
    /// 5xy0: skip the next instruction if reg[x] == reg[y].
    SkipEqReg(usize, usize),
    /// 6xkk: reg[x] = kk.
    LoadImm(usize, u8),
    /// 7xkk: reg[x] += kk, truncated to 8 bits, no flag output.
    AddImm(usize, u8),
    /// 8xy0: reg[x] = reg[y].
    Move(usize, usize),
    /// 8xy1: reg[x] |= reg[y].
    Or(usize, usize),
    /// 8xy2: reg[x] &= reg[y].
    And(usize, usize),
    /// 8xy3: reg[x] ^= reg[y].
    Xor(usize, usize),
    /// 8xy4: reg[x] += reg[y]; reg[0xF] = carry.
    Add(usize, usize),
    /// 8xy5: reg[0xF] = no-borrow; reg[x] -= reg[y] with wraparound.
    Sub(usize, usize),
    /// 8xy6: reg[0xF] = low bit of reg[x]; reg[x] >>= 1.
    Shr(usize),
    /// 8xy7: reg[0xF] = no-borrow; reg[x] = reg[y] - reg[x] with wraparound.
    SubRev(usize, usize),
    /// 8xyE: reg[0xF] = high bit of reg[x]; reg[x] <<= 1.
    Shl(usize),
    /// 9xy0: skip the next instruction if reg[x] != reg[y].
    SkipNeReg(usize, usize),
    /// Annn: index register = nnn.
    LoadIndex(u16),
    /// Bnnn: jump to nnn + reg[0].
    JumpOffset(u16),
    /// Cxkk: reg[x] = random byte masked with kk.
    Random(usize, u8),
    /// Dxyn: draw an n-row sprite at (reg[x], reg[y]) with wraparound.
    Draw(usize, usize, usize),
    /// Ex9E: skip the next instruction if key reg[x] is down.
    SkipKey(usize),
    /// ExA1: skip the next instruction if key reg[x] is up.
    SkipNoKey(usize),
    /// Fx07: reg[x] = delay timer.
    ReadDelay(usize),
    /// Fx0A: wait for a key; rewind the program counter while none is down.
    WaitKey(usize),
    /// Fx15: delay timer = reg[x].
    SetDelay(usize),
    /// Fx18: sound timer = reg[x].
    SetSound(usize),
    /// Fx1E: index register += reg[x].
    AddIndex(usize),
    /// Fx29: index register = address of the font glyph for digit reg[x].
    FontIndex(usize),
    /// Fx33: write the three decimal digits of reg[x] at the index register.
    Bcd(usize),
    /// Fx55: store reg[0]..=reg[x] at the index register.
    StoreRegs(usize),
    /// Fx65: load reg[0]..=reg[x] from the index register.
    LoadRegs(usize),
    /// Any opcode that matches no pattern: executes as a no-op.
    Nop,
}

/// First nibble of an opcode word.
pub open spec fn nib1(op: u16) -> u16 {
    op / 0x1000
}

/// Second nibble: the register operand `x`.
pub open spec fn nib2(op: u16) -> u16 {
    (op / 0x100) % 0x10
}

/// Third nibble: the register operand `y`.
pub open spec fn nib3(op: u16) -> u16 {
    (op / 0x10) % 0x10
}

/// Fourth nibble: the operand `n`.
pub open spec fn nib4(op: u16) -> u16 {
    op % 0x10
}

/// Low byte of an opcode word: the immediate operand `kk`.
pub open spec fn low_byte(op: u16) -> u8 {
    (op % 0x100) as u8
}

/// Low 12 bits of an opcode word: the address operand `nnn`.
pub open spec fn low_addr(op: u16) -> u16 {
    op % 0x1000
}

/// The instruction an opcode word decodes to.
pub open spec fn spec_decode(op: u16) -> Instr {
    let x = nib2(op) as usize;
    let y = nib3(op) as usize;
    let n = nib4(op) as usize;
    let kk = low_byte(op);
    let nnn = low_addr(op);
    if op == 0x00E0 {
        Instr::Cls
    } else if op == 0x00EE {
        Instr::Ret
    } else if nib1(op) == 0x1 {
        Instr::Jump(nnn)
    } else if nib1(op) == 0x2 {
        Instr::Call(nnn)
    } else if nib1(op) == 0x3 {
        Instr::SkipEqImm(x, kk)
    } else if nib1(op) == 0x4 {
        Instr::SkipNeImm(x, kk)
    } else if nib1(op) == 0x5 && nib4(op) == 0x0 {
        Instr::SkipEqReg(x, y)
    } else if nib1(op) == 0x6 {
        Instr::LoadImm(x, kk)
    } else if nib1(op) == 0x7 {
        Instr::AddImm(x, kk)
    } else if nib1(op) == 0x8 && nib4(op) == 0x0 {
        Instr::Move(x, y)
    } else if nib1(op) == 0x8 && nib4(op) == 0x1 {
        Instr::Or(x, y)
    } else if nib1(op) == 0x8 && nib4(op) == 0x2 {
        Instr::And(x, y)
    } else if nib1(op) == 0x8 && nib4(op) == 0x3 {
        Instr::Xor(x, y)
    } else if nib1(op) == 0x8 && nib4(op) == 0x4 {
        Instr::Add(x, y)
    } else if nib1(op) == 0x8 && nib4(op) == 0x5 {
        Instr::Sub(x, y)
    } else if nib1(op) == 0x8 && nib4(op) == 0x6 {
        Instr::Shr(x)
    } else if nib1(op) == 0x8 && nib4(op) == 0x7 {
        Instr::SubRev(x, y)
    } else if nib1(op) == 0x8 && nib4(op) == 0xE {
        Instr::Shl(x)
    } else if nib1(op) == 0x9 && nib4(op) == 0x0 {
        Instr::SkipNeReg(x, y)
    } else if nib1(op) == 0xA {
        Instr::LoadIndex(nnn)
    } else if nib1(op) == 0xB {
        Instr::JumpOffset(nnn)
    } else if nib1(op) == 0xC {
        Instr::Random(x, kk)
    } else if nib1(op) == 0xD {
        Instr::Draw(x, y, n)
    } else if nib1(op) == 0xE && kk == 0x9E {
        Instr::SkipKey(x)
    } else if nib1(op) == 0xE && kk == 0xA1 {
        Instr::SkipNoKey(x)
    } else if nib1(op) == 0xF && kk == 0x07 {
        Instr::ReadDelay(x)
    } else if nib1(op) == 0xF && kk == 0x0A {
        Instr::WaitKey(x)
    } else if nib1(op) == 0xF && kk == 0x15 {
        Instr::SetDelay(x)
    } else if nib1(op) == 0xF && kk == 0x18 {
        Instr::SetSound(x)
    } else if nib1(op) == 0xF && kk == 0x1E {
        Instr::AddIndex(x)
    } else if nib1(op) == 0xF && kk == 0x29 {
        Instr::FontIndex(x)
    } else if nib1(op) == 0xF && kk == 0x33 {
        Instr::Bcd(x)
    } else if nib1(op) == 0xF && kk == 0x55 {
        Instr::StoreRegs(x)
    } else if nib1(op) == 0xF && kk == 0x65 {
        Instr::LoadRegs(x)
    } else {
        Instr::Nop
    }
}

/// True of every register operand the decoder can produce.
pub open spec fn decoded_operands_in_range(i: Instr) -> bool {
    match i {
        Instr::SkipEqImm(x, _) => x < 16,
        Instr::SkipNeImm(x, _) => x < 16,
        Instr::SkipEqReg(x, y) => x < 16 && y < 16,
        Instr::LoadImm(x, _) => x < 16,
        Instr::AddImm(x, _) => x < 16,
        Instr::Move(x, y) => x < 16 && y < 16,
        Instr::Or(x, y) => x < 16 && y < 16,
        Instr::And(x, y) => x < 16 && y < 16,
        Instr::Xor(x, y) => x < 16 && y < 16,
        Instr::Add(x, y) => x < 16 && y < 16,
        Instr::Sub(x, y) => x < 16 && y < 16,
        Instr::Shr(x) => x < 16,
        Instr::SubRev(x, y) => x < 16 && y < 16,
        Instr::Shl(x) => x < 16,
        Instr::SkipNeReg(x, y) => x < 16 && y < 16,
        Instr::Jump(nnn) => nnn < 0x1000,
        Instr::Call(nnn) => nnn < 0x1000,
        Instr::LoadIndex(nnn) => nnn < 0x1000,
        Instr::JumpOffset(nnn) => nnn < 0x1000,
        Instr::Random(x, _) => x < 16,
        Instr::Draw(x, y, n) => x < 16 && y < 16 && n < 16,
        Instr::SkipKey(x) => x < 16,
        Instr::SkipNoKey(x) => x < 16,
        Instr::ReadDelay(x) => x < 16,
        Instr::WaitKey(x) => x < 16,
        Instr::SetDelay(x) => x < 16,
        Instr::SetSound(x) => x < 16,
        Instr::AddIndex(x) => x < 16,
        Instr::FontIndex(x) => x < 16,
        Instr::Bcd(x) => x < 16,
        Instr::StoreRegs(x) => x < 16,
        Instr::LoadRegs(x) => x < 16,
        _ => true,
    }
}

/// Every decoded instruction has register operands below 16, address
/// operands below 0x1000 and sprite heights below 16.
pub proof fn lemma_decode_operands_in_range(op: u16)
    ensures
        decoded_operands_in_range(spec_decode(op)),
{
}

/// Decode one opcode word.
pub fn decode(op: u16) -> (r: Instr)
    ensures
        r == spec_decode(op),
{
    let x = ((op / 0x100) % 0x10) as usize;
    let y = ((op / 0x10) % 0x10) as usize;
    let n = (op % 0x10) as usize;
    let kk = (op % 0x100) as u8;
    let nnn = op % 0x1000;
    let n1 = op / 0x1000;
    if op == 0x00E0 {
        Instr::Cls
    } else if op == 0x00EE {
        Instr::Ret
    } else if n1 == 0x1 {
        Instr::Jump(nnn)
    } else if n1 == 0x2 {
        Instr::Call(nnn)
    } else if n1 == 0x3 {
        Instr::SkipEqImm(x, kk)
    } else if n1 == 0x4 {
        Instr::SkipNeImm(x, kk)
    } else if n1 == 0x5 && n == 0x0 {
        Instr::SkipEqReg(x, y)
    } else if n1 == 0x6 {
        Instr::LoadImm(x, kk)
    } else if n1 == 0x7 {
        Instr::AddImm(x, kk)
    } else if n1 == 0x8 && n == 0x0 {
        Instr::Move(x, y)
    } else if n1 == 0x8 && n == 0x1 {
        Instr::Or(x, y)
    } else if n1 == 0x8 && n == 0x2 {
        Instr::And(x, y)
    } else if n1 == 0x8 && n == 0x3 {
        Instr::Xor(x, y)
    } else if n1 == 0x8 && n == 0x4 {
        Instr::Add(x, y)
    } else if n1 == 0x8 && n == 0x5 {
        Instr::Sub(x, y)
    } else if n1 == 0x8 && n == 0x6 {
        Instr::Shr(x)
    } else if n1 == 0x8 && n == 0x7 {
        Instr::SubRev(x, y)
    } else if n1 == 0x8 && n == 0xE {
        Instr::Shl(x)
    } else if n1 == 0x9 && n == 0x0 {
        Instr::SkipNeReg(x, y)
    } else if n1 == 0xA {
        Instr::LoadIndex(nnn)
    } else if n1 == 0xB {
        Instr::JumpOffset(nnn)
    } else if n1 == 0xC {
        Instr::Random(x, kk)
    } else if n1 == 0xD {
        Instr::Draw(x, y, n)
    } else if n1 == 0xE && kk == 0x9E {
        Instr::SkipKey(x)
    } else if n1 == 0xE && kk == 0xA1 {
        Instr::SkipNoKey(x)
    } else if n1 == 0xF && kk == 0x07 {
        Instr::ReadDelay(x)
    } else if n1 == 0xF && kk == 0x0A {
        Instr::WaitKey(x)
    } else if n1 == 0xF && kk == 0x15 {
        Instr::SetDelay(x)
    } else if n1 == 0xF && kk == 0x18 {
        Instr::SetSound(x)
    } else if n1 == 0xF && kk == 0x1E {
        Instr::AddIndex(x)
    } else if n1 == 0xF && kk == 0x29 {
        Instr::FontIndex(x)
    } else if n1 == 0xF && kk == 0x33 {
        Instr::Bcd(x)
    } else if n1 == 0xF && kk == 0x55 {
        Instr::StoreRegs(x)
    } else if n1 == 0xF && kk == 0x65 {
        Instr::LoadRegs(x)
    } else {
        Instr::Nop
    }
}

} // verus!

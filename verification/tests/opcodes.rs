//! Per-instruction behavior, driven through the public handlers.

use chip8::decode::{decode, Instr};
use chip8::{Chip, ChipError};

fn keys_with(down: &[usize]) -> Vec<u8> {
    let mut v = vec![0u8; 16];
    for &k in down {
        v[k] = 1;
    }
    v
}

#[test]
fn load_immediate_sets_register_for_all_registers() {
    let mut c = Chip::new();
    for x in 0..16usize {
        let kk = (17 * x + 3) as u8;
        c.op_6xkk(x, kk);
        assert_eq!(c.reg(x), kk);
    }
    c.op_6xkk(7, 0x00);
    assert_eq!(c.reg(7), 0x00);
    c.op_6xkk(7, 0xFF);
    assert_eq!(c.reg(7), 0xFF);
}

#[test]
fn add_immediate_wraps_and_never_writes_flag() {
    let mut c = Chip::new();
    c.op_6xkk(0xF, 0x55);
    c.op_6xkk(2, 250);
    c.op_7xkk(2, 10);
    assert_eq!(c.reg(2), 4);
    assert_eq!(c.reg(0xF), 0x55);
    c.op_7xkk(2, 1);
    assert_eq!(c.reg(2), 5);
    assert_eq!(c.reg(0xF), 0x55);
}

#[test]
fn add_registers_sets_carry_iff_overflow() {
    let mut c = Chip::new();
    c.op_6xkk(0, 255);
    c.op_6xkk(1, 1);
    c.op_8xy4(0, 1);
    assert_eq!(c.reg(0), 0);
    assert_eq!(c.reg(0xF), 1);
    c.op_6xkk(2, 10);
    c.op_6xkk(3, 20);
    c.op_8xy4(2, 3);
    assert_eq!(c.reg(2), 30);
    assert_eq!(c.reg(0xF), 0);
}

#[test]
fn sub_registers_wraps_and_reports_no_borrow() {
    let mut c = Chip::new();
    c.op_6xkk(4, 0x10);
    c.op_6xkk(5, 0x20);
    c.op_8xy5(4, 5);
    assert_eq!(c.reg(4), 0xF0);
    assert_eq!(c.reg(0xF), 0);
    c.op_6xkk(6, 0x20);
    c.op_6xkk(7, 0x10);
    c.op_8xy5(6, 7);
    assert_eq!(c.reg(6), 0x10);
    assert_eq!(c.reg(0xF), 1);
}

#[test]
fn sub_reverse_wraps_and_reports_no_borrow() {
    let mut c = Chip::new();
    c.op_6xkk(4, 0x20);
    c.op_6xkk(5, 0x10);
    c.op_8xy7(4, 5);
    assert_eq!(c.reg(4), 0xF0);
    assert_eq!(c.reg(0xF), 0);
    c.op_6xkk(6, 0x10);
    c.op_6xkk(7, 0x30);
    c.op_8xy7(6, 7);
    assert_eq!(c.reg(6), 0x20);
    assert_eq!(c.reg(0xF), 1);
}

#[test]
fn bitwise_ops_and_moves() {
    let mut c = Chip::new();
    c.op_6xkk(0, 0b1100);
    c.op_6xkk(1, 0b1010);
    c.op_8xy1(0, 1);
    assert_eq!(c.reg(0), 0b1110);
    c.op_6xkk(0, 0b1100);
    c.op_8xy2(0, 1);
    assert_eq!(c.reg(0), 0b1000);
    c.op_6xkk(0, 0b1100);
    c.op_8xy3(0, 1);
    assert_eq!(c.reg(0), 0b0110);
    c.op_8xy0(2, 1);
    assert_eq!(c.reg(2), 0b1010);
}

#[test]
fn shifts_report_the_shifted_out_bit() {
    let mut c = Chip::new();
    c.op_6xkk(3, 5);
    c.op_8xy6(3, 0);
    assert_eq!(c.reg(3), 2);
    assert_eq!(c.reg(0xF), 1);
    c.op_6xkk(3, 4);
    c.op_8xy6(3, 0);
    assert_eq!(c.reg(3), 2);
    assert_eq!(c.reg(0xF), 0);
    c.op_6xkk(4, 0x81);
    c.op_8xye(4, 0);
    assert_eq!(c.reg(4), 0x02);
    assert_eq!(c.reg(0xF), 1);
    c.op_6xkk(4, 0x41);
    c.op_8xye(4, 0);
    assert_eq!(c.reg(4), 0x82);
    assert_eq!(c.reg(0xF), 0);
}

#[test]
fn random_masks_with_the_immediate() {
    let mut c = Chip::new();
    for _ in 0..32 {
        c.op_cxkk(1, 0x0F);
        assert!(c.reg(1) <= 0x0F);
    }
    c.op_cxkk(1, 0x00);
    assert_eq!(c.reg(1), 0);
}

#[test]
fn bcd_writes_the_three_decimal_digits() {
    let mut c = Chip::new();
    c.op_annn(0x300);
    c.op_6xkk(2, 157);
    assert_eq!(c.op_fx33(2), Ok(()));
    assert_eq!(c.mem_at(0x300), 1);
    assert_eq!(c.mem_at(0x301), 5);
    assert_eq!(c.mem_at(0x302), 7);
    c.op_6xkk(2, 9);
    assert_eq!(c.op_fx33(2), Ok(()));
    assert_eq!(c.mem_at(0x300), 0);
    assert_eq!(c.mem_at(0x301), 0);
    assert_eq!(c.mem_at(0x302), 9);
}

#[test]
fn register_dump_and_load_round_trip() {
    let mut c = Chip::new();
    c.op_annn(0x320);
    for x in 0..4usize {
        c.op_6xkk(x, (10 + x) as u8);
    }
    assert_eq!(c.op_fx55(3), Ok(()));
    for x in 0..4usize {
        assert_eq!(c.mem_at(0x320 + x), (10 + x) as u8);
    }
    assert_eq!(c.mem_at(0x324), 0);
    for x in 0..4usize {
        c.op_6xkk(x, 0);
    }
    assert_eq!(c.op_fx65(3), Ok(()));
    for x in 0..4usize {
        assert_eq!(c.reg(x), (10 + x) as u8);
    }
}

#[test]
fn register_dump_stores_each_register_not_the_last() {
    let mut c = Chip::new();
    c.op_annn(0x340);
    c.op_6xkk(0, 1);
    c.op_6xkk(1, 2);
    c.op_6xkk(2, 3);
    assert_eq!(c.op_fx55(2), Ok(()));
    assert_eq!(c.mem_at(0x340), 1);
    assert_eq!(c.mem_at(0x341), 2);
    assert_eq!(c.mem_at(0x342), 3);
}

#[test]
fn timer_instructions_move_values() {
    let mut c = Chip::new();
    c.op_6xkk(1, 42);
    c.op_fx15(1);
    assert_eq!(c.delay(), 42);
    c.op_fx18(1);
    assert_eq!(c.sound(), 42);
    c.op_fx07(2);
    assert_eq!(c.reg(2), 42);
}

#[test]
fn index_instructions() {
    let mut c = Chip::new();
    c.op_annn(0x123);
    assert_eq!(c.index(), 0x123);
    c.op_6xkk(1, 0x10);
    assert_eq!(c.op_fx1e(1), Ok(()));
    assert_eq!(c.index(), 0x133);
    c.op_6xkk(2, 0xA);
    c.op_fx29(2);
    assert_eq!(c.index(), 0x50 + 5 * 0xA);
}

#[test]
fn wait_key_reports_the_highest_set_key() {
    let mut c = Chip::new();
    c.op_1nnn(0x400);
    c.set_input(&keys_with(&[3, 7]));
    c.op_fx0a(2);
    assert_eq!(c.reg(2), 7);
    assert_eq!(c.pc(), 0x400);
}

#[test]
fn wait_key_rewinds_when_no_key_is_down() {
    let mut c = Chip::new();
    c.op_1nnn(0x400);
    c.set_input(&keys_with(&[]));
    c.op_fx0a(2);
    assert_eq!(c.pc(), 0x3FE);
}

#[test]
fn stack_underflow_on_return_with_empty_stack() {
    let mut c = Chip::new();
    assert_eq!(c.op_00ee(), Err(ChipError::StackUnderflow));
    assert_eq!(c.pc(), 0x200);
    assert_eq!(c.sp(), 0);
}

#[test]
fn stack_overflow_on_seventeenth_call() {
    let mut c = Chip::new();
    for _ in 0..16 {
        assert_eq!(c.op_2nnn(0x300), Ok(()));
    }
    assert_eq!(c.sp(), 16);
    assert_eq!(c.op_2nnn(0x300), Err(ChipError::StackOverflow));
    assert_eq!(c.sp(), 16);
}

#[test]
fn out_of_bounds_bcd_and_register_transfers() {
    let mut c = Chip::new();
    c.op_annn(0xFFE);
    c.op_6xkk(0, 5);
    assert_eq!(c.op_fx33(0), Err(ChipError::OutOfBoundsAccess));
    assert_eq!(c.mem_at(0xFFE), 0);
    c.op_annn(0xFFD);
    assert_eq!(c.op_fx33(0), Ok(()));
    c.op_annn(0xFFF);
    assert_eq!(c.op_fx55(1), Err(ChipError::OutOfBoundsAccess));
    assert_eq!(c.op_fx65(1), Err(ChipError::OutOfBoundsAccess));
    assert_eq!(c.op_fx55(0), Ok(()));
}

#[test]
fn out_of_bounds_key_index_is_refused() {
    let mut c = Chip::new();
    c.op_6xkk(1, 200);
    assert_eq!(c.op_ex9e(1), Err(ChipError::OutOfBoundsAccess));
    assert_eq!(c.op_exa1(1), Err(ChipError::OutOfBoundsAccess));
    assert_eq!(c.pc(), 0x200);
}

#[test]
fn out_of_bounds_sprite_read_is_refused() {
    let mut c = Chip::new();
    c.op_annn(0xFFF);
    assert_eq!(c.op_dxyn(0, 1, 2), Err(ChipError::OutOfBoundsAccess));
    assert_eq!(c.reg(0xF), 0);
    assert_eq!(c.op_dxyn(0, 1, 0), Ok(()));
}

#[test]
fn skip_key_instructions_follow_the_latch() {
    let mut c = Chip::new();
    c.op_6xkk(0, 4);
    c.set_input(&keys_with(&[4]));
    assert_eq!(c.op_ex9e(0), Ok(()));
    assert_eq!(c.pc(), 0x202);
    assert_eq!(c.op_exa1(0), Ok(()));
    assert_eq!(c.pc(), 0x202);
    c.set_input(&keys_with(&[]));
    assert_eq!(c.op_ex9e(0), Ok(()));
    assert_eq!(c.pc(), 0x202);
    assert_eq!(c.op_exa1(0), Ok(()));
    assert_eq!(c.pc(), 0x204);
}

#[test]
fn decoder_matches_the_opcode_table() {
    assert_eq!(decode(0x00E0), Instr::Cls);
    assert_eq!(decode(0x00EE), Instr::Ret);
    assert_eq!(decode(0x1234), Instr::Jump(0x234));
    assert_eq!(decode(0x2345), Instr::Call(0x345));
    assert_eq!(decode(0x3A7F), Instr::SkipEqImm(0xA, 0x7F));
    assert_eq!(decode(0x4B01), Instr::SkipNeImm(0xB, 0x01));
    assert_eq!(decode(0x5120), Instr::SkipEqReg(1, 2));
    assert_eq!(decode(0x6C55), Instr::LoadImm(0xC, 0x55));
    assert_eq!(decode(0x7D10), Instr::AddImm(0xD, 0x10));
    assert_eq!(decode(0x8120), Instr::Move(1, 2));
    assert_eq!(decode(0x8121), Instr::Or(1, 2));
    assert_eq!(decode(0x8122), Instr::And(1, 2));
    assert_eq!(decode(0x8123), Instr::Xor(1, 2));
    assert_eq!(decode(0x8124), Instr::Add(1, 2));
    assert_eq!(decode(0x8125), Instr::Sub(1, 2));
    assert_eq!(decode(0x8126), Instr::Shr(1));
    assert_eq!(decode(0x8127), Instr::SubRev(1, 2));
    assert_eq!(decode(0x812E), Instr::Shl(1));
    assert_eq!(decode(0x9340), Instr::SkipNeReg(3, 4));
    assert_eq!(decode(0xA678), Instr::LoadIndex(0x678));
    assert_eq!(decode(0xB789), Instr::JumpOffset(0x789));
    assert_eq!(decode(0xC4AA), Instr::Random(4, 0xAA));
    assert_eq!(decode(0xD125), Instr::Draw(1, 2, 5));
    assert_eq!(decode(0xE19E), Instr::SkipKey(1));
    assert_eq!(decode(0xE2A1), Instr::SkipNoKey(2));
    assert_eq!(decode(0xF307), Instr::ReadDelay(3));
    assert_eq!(decode(0xF40A), Instr::WaitKey(4));
    assert_eq!(decode(0xF515), Instr::SetDelay(5));
    assert_eq!(decode(0xF618), Instr::SetSound(6));
    assert_eq!(decode(0xF71E), Instr::AddIndex(7));
    assert_eq!(decode(0xF829), Instr::FontIndex(8));
    assert_eq!(decode(0xF933), Instr::Bcd(9));
    assert_eq!(decode(0xFA55), Instr::StoreRegs(0xA));
    assert_eq!(decode(0xFB65), Instr::LoadRegs(0xB));
    assert_eq!(decode(0x5121), Instr::Nop);
    assert_eq!(decode(0x8128), Instr::Nop);
    assert_eq!(decode(0xE100), Instr::Nop);
    assert_eq!(decode(0xFFFF), Instr::Nop);
    assert_eq!(decode(0x0123), Instr::Nop);
}

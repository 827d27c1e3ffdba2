//! Whole-cycle behavior: fetch, dispatch, timers, drawing, waiting for
//! input, and calls and returns, driven through `load` and `cycle`.

use chip8::{Chip, ChipError, FONT_ADDRESS};

fn keys_with(down: &[usize]) -> Vec<u8> {
    let mut v = vec![0u8; 16];
    for &k in down {
        v[k] = 1;
    }
    v
}

fn loaded(words: &[u16]) -> Chip {
    let mut rom = Vec::new();
    for w in words {
        rom.push((w >> 8) as u8);
        rom.push((w & 0xFF) as u8);
    }
    let mut c = Chip::new();
    c.load(&rom);
    c
}

#[test]
fn initial_machine_state() {
    let c = Chip::new();
    assert_eq!(c.pc(), 0x200);
    assert_eq!(c.sp(), 0);
    assert_eq!(c.index(), 0);
    assert_eq!(c.delay(), 0);
    assert_eq!(c.sound(), 0);
    for i in 0..16 {
        assert_eq!(c.reg(i), 0);
    }
    for y in 0..32 {
        for x in 0..64 {
            assert_eq!(c.pixel(x, y), 0);
        }
    }
    assert_eq!(c.mem_at(FONT_ADDRESS), 0xF0);
    assert_eq!(c.mem_at(FONT_ADDRESS + 4), 0xF0);
    assert_eq!(c.mem_at(FONT_ADDRESS + 79), 0x80);
    assert_eq!(c.mem_at(0x200), 0);
}

#[test]
fn load_places_the_image_at_the_program_start() {
    let mut c = Chip::new();
    let rom = vec![0xAB, 0xCD, 0xEF];
    c.load(&rom);
    assert_eq!(c.mem_at(0x200), 0xAB);
    assert_eq!(c.mem_at(0x201), 0xCD);
    assert_eq!(c.mem_at(0x202), 0xEF);
    assert_eq!(c.mem_at(0x203), 0);
    assert_eq!(c.mem_at(0x1FF), 0);
    assert_eq!(c.mem_at(FONT_ADDRESS), 0xF0);
}

#[test]
fn cycle_fetches_big_endian_and_advances() {
    let mut c = loaded(&[0x6A42]);
    assert_eq!(c.cycle(), Ok(()));
    assert_eq!(c.pc(), 0x202);
    assert_eq!(c.reg(0xA), 0x42);
}

#[test]
fn unknown_opcodes_are_no_ops() {
    let mut c = loaded(&[0x0123, 0xFFFF, 0x8128]);
    for i in 0..3 {
        assert_eq!(c.cycle(), Ok(()));
        assert_eq!(c.pc(), 0x202 + 2 * i);
    }
    for i in 0..16 {
        assert_eq!(c.reg(i), 0);
    }
}

#[test]
fn skip_instructions_skip_exactly_one_instruction() {
    // 3xkk taken, then 6xkk that must be skipped, then 4xkk not taken.
    let mut c = loaded(&[0x3000, 0x6177, 0x4000, 0x6288]);
    assert_eq!(c.cycle(), Ok(()));
    assert_eq!(c.pc(), 0x204);
    assert_eq!(c.cycle(), Ok(()));
    assert_eq!(c.pc(), 0x206);
    assert_eq!(c.cycle(), Ok(()));
    assert_eq!(c.reg(1), 0);
    assert_eq!(c.reg(2), 0x88);
}

#[test]
fn register_skip_instructions() {
    let mut c = loaded(&[0x5120, 0x0000, 0x9120, 0x0000]);
    assert_eq!(c.cycle(), Ok(()));
    assert_eq!(c.pc(), 0x204);
    assert_eq!(c.cycle(), Ok(()));
    assert_eq!(c.pc(), 0x206);
}

#[test]
fn jump_and_offset_jump() {
    let mut c = loaded(&[0x1300]);
    assert_eq!(c.cycle(), Ok(()));
    assert_eq!(c.pc(), 0x300);
    let mut c2 = loaded(&[0x6005, 0xB300]);
    assert_eq!(c2.cycle(), Ok(()));
    assert_eq!(c2.cycle(), Ok(()));
    assert_eq!(c2.pc(), 0x305);
}

#[test]
fn call_then_return_resumes_after_the_call() {
    let mut words = vec![0x2300u16];
    words.resize(0x80, 0x0000);
    words.push(0x00EE); // lands at 0x300
    let mut c = loaded(&words);
    assert_eq!(c.cycle(), Ok(()));
    assert_eq!(c.pc(), 0x300);
    assert_eq!(c.sp(), 1);
    assert_eq!(c.cycle(), Ok(()));
    assert_eq!(c.pc(), 0x202);
    assert_eq!(c.sp(), 0);
}

#[test]
fn fetch_out_of_bounds_is_refused() {
    let mut c = loaded(&[0x1FFF]);
    assert_eq!(c.cycle(), Ok(()));
    assert_eq!(c.pc(), 0xFFF);
    assert_eq!(c.cycle(), Err(ChipError::OutOfBoundsAccess));
    assert_eq!(c.pc(), 0xFFF);
}

#[test]
fn failed_instruction_reports_its_error_through_cycle() {
    let mut c = loaded(&[0x00EE]);
    assert_eq!(c.cycle(), Err(ChipError::StackUnderflow));
}

#[test]
fn timers_tick_once_per_cycle_and_saturate_at_zero() {
    let mut c = loaded(&[0x6103, 0xF115, 0xF118, 0x0000, 0x0000, 0x0000, 0x0000]);
    assert_eq!(c.cycle(), Ok(())); // reg1 = 3
    assert_eq!(c.cycle(), Ok(())); // delay = 3, then ticks to 2
    assert_eq!(c.delay(), 2);
    assert_eq!(c.cycle(), Ok(())); // sound = 3 -> 2; delay -> 1
    assert_eq!(c.sound(), 2);
    assert_eq!(c.delay(), 1);
    assert_eq!(c.cycle(), Ok(()));
    assert_eq!(c.delay(), 0);
    assert_eq!(c.sound(), 1);
    assert_eq!(c.cycle(), Ok(()));
    assert_eq!(c.delay(), 0);
    assert_eq!(c.sound(), 0);
    assert_eq!(c.cycle(), Ok(()));
    assert_eq!(c.delay(), 0);
    assert_eq!(c.sound(), 0);
}

#[test]
fn wait_key_holds_the_pc_until_a_key_is_down() {
    let mut c = loaded(&[0xF30A]);
    for _ in 0..5 {
        assert_eq!(c.cycle(), Ok(()));
        assert_eq!(c.pc(), 0x200);
    }
    c.set_input(&keys_with(&[9]));
    assert_eq!(c.cycle(), Ok(()));
    assert_eq!(c.pc(), 0x202);
    assert_eq!(c.reg(3), 9);
}

#[test]
fn clear_screen_zeroes_every_framebuffer_cell() {
    // Point the index at glyph 0, draw it, then clear.
    let mut c = loaded(&[0x6000, 0xF029, 0xD005, 0x00E0]);
    for _ in 0..3 {
        assert_eq!(c.cycle(), Ok(()));
    }
    assert_eq!(c.pixel(0, 0), 1);
    assert_eq!(c.cycle(), Ok(()));
    for y in 0..32 {
        for x in 0..64 {
            assert_eq!(c.pixel(x, y), 0);
        }
    }
}

#[test]
fn drawing_the_zero_glyph_matches_its_bitmap() {
    let mut c = loaded(&[0x6000, 0xF029, 0xD005]);
    for _ in 0..3 {
        assert_eq!(c.cycle(), Ok(()));
    }
    // Glyph 0 is F0 90 90 90 F0: a 4-wide box outline.
    let rows = [0xF0u8, 0x90, 0x90, 0x90, 0xF0];
    for (y, row) in rows.iter().enumerate() {
        for x in 0..8 {
            let want = (row >> (7 - x)) & 1;
            assert_eq!(c.pixel(x, y), want);
        }
    }
    assert_eq!(c.reg(0xF), 0);
}

#[test]
fn drawing_the_same_glyph_twice_restores_the_screen_and_collides() {
    let mut c = loaded(&[0x6000, 0xF029, 0xD005, 0xD005]);
    for _ in 0..3 {
        assert_eq!(c.cycle(), Ok(()));
    }
    assert_eq!(c.reg(0xF), 0);
    assert_eq!(c.cycle(), Ok(()));
    assert_eq!(c.reg(0xF), 1);
    for y in 0..32 {
        for x in 0..64 {
            assert_eq!(c.pixel(x, y), 0);
        }
    }
}

#[test]
fn drawing_wraps_around_both_screen_edges() {
    // reg0 = 0xFF stored at 0x400 as sprite data; draw its single row at
    // (60, 31): columns 60..63 then 0..3, on the last row.
    let mut c = loaded(&[0x60FF, 0xA400, 0xF055, 0x613C, 0x621F, 0xD121]);
    for _ in 0..6 {
        assert_eq!(c.cycle(), Ok(()));
    }
    for x in [60, 61, 62, 63, 0, 1, 2, 3] {
        assert_eq!(c.pixel(x, 31), 1);
    }
    for x in 4..60 {
        assert_eq!(c.pixel(x, 31), 0);
    }
    for x in 0..64 {
        assert_eq!(c.pixel(x, 0), 0);
    }
    assert_eq!(c.reg(0xF), 0);
}

#[test]
fn draw_row_wraps_vertically() {
    // Draw glyph 0 (5 rows) starting at row 30: rows 30, 31, 0, 1, 2.
    let mut c = loaded(&[0x6000, 0xF029, 0x611E, 0xD015]);
    for _ in 0..4 {
        assert_eq!(c.cycle(), Ok(()));
    }
    assert_eq!(c.pixel(0, 30), 1); // row 0xF0
    assert_eq!(c.pixel(1, 31), 0); // row 0x90
    assert_eq!(c.pixel(0, 31), 1);
    assert_eq!(c.pixel(3, 31), 1);
    assert_eq!(c.pixel(0, 0), 1);
    assert_eq!(c.pixel(0, 2), 1); // row 0xF0 again
    assert_eq!(c.pixel(3, 2), 1);
}

#[test]
fn random_through_cycle_respects_the_mask() {
    let mut c = loaded(&[0xC507, 0x1200]);
    for _ in 0..16 {
        assert_eq!(c.cycle(), Ok(())); // Cxkk
        assert!(c.reg(5) <= 7);
        assert_eq!(c.cycle(), Ok(())); // jump back
        assert_eq!(c.pc(), 0x200);
    }
}

#[test]
fn set_input_overwrites_the_whole_latch() {
    let mut c = loaded(&[0xE09E, 0xE0A1]);
    c.set_input(&keys_with(&[0]));
    c.set_input(&keys_with(&[]));
    assert_eq!(c.cycle(), Ok(()));
    assert_eq!(c.pc(), 0x202); // key 0 up: no skip
    assert_eq!(c.cycle(), Ok(()));
    assert_eq!(c.pc(), 0x206); // key 0 up: skip
}

//! The built-in font sprite table: one 8x5 bitmap glyph for each hex digit
//! 0-F, five bytes per glyph, preloaded into low memory before any program
//! runs.

use vstd::prelude::*;

verus! {

/// Memory address at which the font sprite table is preloaded.
pub const FONT_ADDRESS: usize = 0x50;

/// Total size of the font sprite table: 16 glyphs of 5 bytes each.
pub const FONT_SIZE: usize = 80;

/// The five bitmap rows of the glyph for hex digit `d`, top row first.
/// Digits outside 0-15 read as a blank glyph.
pub open spec fn glyph_rows(d: int) -> (u8, u8, u8, u8, u8) {
    if d == 0x0 {
        (0xF0, 0x90, 0x90, 0x90, 0xF0)
    } else if d == 0x1 {
        (0x20, 0x60, 0x20, 0x20, 0x70)
    } else if d == 0x2 {
        (0xF0, 0x10, 0xF0, 0x80, 0xF0)
    } else if d == 0x3 {
        (0xF0, 0x10, 0xF0, 0x10, 0xF0)
    } else if d == 0x4 {
        (0x90, 0x90, 0xF0, 0x10, 0x10)
    } else if d == 0x5 {
        (0xF0, 0x80, 0xF0, 0x10, 0xF0)
    } else if d == 0x6 {
        (0xF0, 0x80, 0xF0, 0x90, 0xF0)
    } else if d == 0x7 {
        (0xF0, 0x10, 0x20, 0x40, 0x40)
    } else if d == 0x8 {
        (0xF0, 0x90, 0xF0, 0x90, 0xF0)
    } else if d == 0x9 {
        (0xF0, 0x90, 0xF0, 0x10, 0xF0)
    } else if d == 0xA {
        (0xF0, 0x90, 0xF0, 0x90, 0x90)
    } else if d == 0xB {
        (0xE0, 0x90, 0xE0, 0x90, 0xE0)
    } else if d == 0xC {
        (0xF0, 0x80, 0x80, 0x80, 0xF0)
    } else if d == 0xD {
        (0xE0, 0x90, 0x90, 0x90, 0xE0)
    } else if d == 0xE {
        (0xF0, 0x80, 0xF0, 0x80, 0xF0)
    } else if d == 0xF {
        (0xF0, 0x80, 0xF0, 0x80, 0x80)
    } else {
        (0, 0, 0, 0, 0)
    }
}

/// Byte `i` of the font sprite table: row `i % 5` of the glyph for hex
/// digit `i / 5`.
pub open spec fn font_spec(i: int) -> u8 {
    let g = glyph_rows(i / 5);
    let r = i % 5;
    if r == 0 {
        g.0
    } else if r == 1 {
        g.1
    } else if r == 2 {
        g.2
    } else if r == 3 {
        g.3
    } else {
        g.4
    }
}

/// Byte `i` of the font sprite table, as executable code.
pub fn font_byte(i: usize) -> (r: u8)
    requires
        i < FONT_SIZE,
    ensures
        r == font_spec(i as int),
{
    let d: usize = i / 5;
    let g: (u8, u8, u8, u8, u8) = if d == 0x0 {
        (0xF0, 0x90, 0x90, 0x90, 0xF0)
    } else if d == 0x1 {
        (0x20, 0x60, 0x20, 0x20, 0x70)
    } else if d == 0x2 {
        (0xF0, 0x10, 0xF0, 0x80, 0xF0)
    } else if d == 0x3 {
        (0xF0, 0x10, 0xF0, 0x10, 0xF0)
    } else if d == 0x4 {
        (0x90, 0x90, 0xF0, 0x10, 0x10)
    } else if d == 0x5 {
        (0xF0, 0x80, 0xF0, 0x10, 0xF0)
    } else if d == 0x6 {
        (0xF0, 0x80, 0xF0, 0x90, 0xF0)
    } else if d == 0x7 {
        (0xF0, 0x10, 0x20, 0x40, 0x40)
    } else if d == 0x8 {
        (0xF0, 0x90, 0xF0, 0x90, 0xF0)
    } else if d == 0x9 {
        (0xF0, 0x90, 0xF0, 0x10, 0xF0)
    } else if d == 0xA {
        (0xF0, 0x90, 0xF0, 0x90, 0x90)
    } else if d == 0xB {
        (0xE0, 0x90, 0xE0, 0x90, 0xE0)
    } else if d == 0xC {
        (0xF0, 0x80, 0x80, 0x80, 0xF0)
    } else if d == 0xD {
        (0xE0, 0x90, 0x90, 0x90, 0xE0)
    } else if d == 0xE {
        (0xF0, 0x80, 0xF0, 0x80, 0xF0)
    } else {
        (0xF0, 0x80, 0xF0, 0x80, 0x80)
    };
    let r: usize = i % 5;
    if r == 0 {
        g.0
    } else if r == 1 {
        g.1
    } else if r == 2 {
        g.2
    } else if r == 3 {
        g.3
    } else {
        g.4
    }
}

} // verus!

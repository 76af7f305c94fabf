//! The colour palette.
use vstd::prelude::*;

verus! {

/// Default background colour of the screen.
pub const BACKGROUND: [u8; 3] = [0x1e, 0x1e, 0x1e];

/// Default foreground colour of text.
pub const FOREGROUND: [u8; 3] = [0xcc, 0xcc, 0xcc];

/// The sixteen colours of the basic palette: eight normal, then eight bright.
pub open spec fn basic_palette() -> Seq<[u8; 3]> {
    seq![
        [0x00u8, 0x00u8, 0x00u8],
        [0xcdu8, 0x31u8, 0x31u8],
        [0x0du8, 0xbcu8, 0x79u8],
        [0xe5u8, 0xe5u8, 0x10u8],
        [0x24u8, 0x72u8, 0xc8u8],
        [0xbcu8, 0x3fu8, 0xbcu8],
        [0x11u8, 0xa8u8, 0xcdu8],
        [0xe5u8, 0xe5u8, 0xe5u8],
        [0x66u8, 0x66u8, 0x66u8],
        [0xf1u8, 0x4cu8, 0x4cu8],
        [0x23u8, 0xd1u8, 0x8bu8],
        [0xf5u8, 0xf5u8, 0x43u8],
        [0x3bu8, 0x8eu8, 0xeau8],
        [0xd6u8, 0x70u8, 0xd6u8],
        [0x29u8, 0xb8u8, 0xdbu8],
        [0xffu8, 0xffu8, 0xffu8],
    ]
}

/// Colour `i` of the basic palette.
pub fn four(i: u16) -> (c: [u8; 3])
    requires
        i < 16,
    ensures
        c == basic_palette()[i as int],
{
    let table: [[u8; 3]; 16] = [
        [0x00, 0x00, 0x00],
        [0xcd, 0x31, 0x31],
        [0x0d, 0xbc, 0x79],
        [0xe5, 0xe5, 0x10],
        [0x24, 0x72, 0xc8],
        [0xbc, 0x3f, 0xbc],
        [0x11, 0xa8, 0xcd],
        [0xe5, 0xe5, 0xe5],
        [0x66, 0x66, 0x66],
        [0xf1, 0x4c, 0x4c],
        [0x23, 0xd1, 0x8b],
        [0xf5, 0xf5, 0x43],
        [0x3b, 0x8e, 0xea],
        [0xd6, 0x70, 0xd6],
        [0x29, 0xb8, 0xdb],
        [0xff, 0xff, 0xff],
    ];
    assert(table@ =~= basic_palette());
    table[i as usize]
}

/// Channel value of step `k` (0 to 5) of the colour cube.
pub open spec fn cube_level(k: int) -> u8 {
    if k == 0 {
        0
    } else {
        (55 + 40 * k) as u8
    }
}

/// Colour `i` of the 256-colour palette: the basic sixteen, then a 6×6×6 cube of
/// red, green and blue steps, then 24 greys from dark to light.
pub open spec fn palette_256(i: u8) -> [u8; 3] {
    if i < 16 {
        basic_palette()[i as int]
    } else if i < 232 {
        let n = i - 16;
        [cube_level(n / 36), cube_level((n / 6) % 6), cube_level(n % 6)]
    } else {
        let g = (8 + 10 * (i - 232)) as u8;
        [g, g, g]
    }
}

fn level(k: u8) -> (v: u8)
    requires
        k < 6,
    ensures
        v == cube_level(k as int),
{
    if k == 0 {
        0
    } else {
        55 + 40 * k
    }
}

/// Colour `i` of the 256-colour palette.
pub fn eight(i: u8) -> (c: [u8; 3])
    ensures
        c == palette_256(i),
{
    if i < 16 {
        four(i as u16)
    } else if i < 232 {
        let n = i - 16;
        [level(n / 36), level((n / 6) % 6), level(n % 6)]
    } else {
        let g = 8 + 10 * (i - 232);
        [g, g, g]
    }
}

} // verus!

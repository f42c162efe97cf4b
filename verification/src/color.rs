//! Colors: the 256-color palette of terminals and what each cell, card and
//! mark is painted with.
use vstd::prelude::*;

verus! {

/// An opaque color.
#[derive(Clone, Copy, Debug, PartialEq, Eq, Structural)]
pub struct Rgb {
    pub r: u8,
    pub g: u8,
    pub b: u8,
}

/// The color that a terminal program asked for.
#[derive(Clone, Copy, Debug, PartialEq, Eq, Structural)]
pub enum TermColor {
    /// The terminal's own foreground or background.
    Default,
    /// An entry of the 256-color palette.
    Idx(u8),
    /// A direct color.
    Rgb(u8, u8, u8),
}

pub open spec fn rgb(r: int, g: int, b: int) -> Rgb {
    Rgb { r: r as u8, g: g as u8, b: b as u8 }
}

/// The sixteen named colors, normal then bright.
pub open spec fn named_color(idx: int) -> Rgb {
    if idx == 0 {
        rgb(0x1e, 0x1e, 0x1e)
    } else if idx == 1 {
        rgb(0xcd, 0x31, 0x31)
    } else if idx == 2 {
        rgb(0x0d, 0xbc, 0x79)
    } else if idx == 3 {
        rgb(0xe5, 0xe5, 0x10)
    } else if idx == 4 {
        rgb(0x24, 0x72, 0xc8)
    } else if idx == 5 {
        rgb(0xbc, 0x3f, 0xbc)
    } else if idx == 6 {
        rgb(0x11, 0xa8, 0xcd)
    } else if idx == 7 {
        rgb(0xe5, 0xe5, 0xe5)
    } else if idx == 8 {
        rgb(0x66, 0x66, 0x66)
    } else if idx == 9 {
        rgb(0xf1, 0x4c, 0x4c)
    } else if idx == 10 {
        rgb(0x23, 0xd1, 0x8b)
    } else if idx == 11 {
        rgb(0xf5, 0xf5, 0x43)
    } else if idx == 12 {
        rgb(0x3b, 0x8e, 0xea)
    } else if idx == 13 {
        rgb(0xd6, 0x70, 0xd6)
    } else if idx == 14 {
        rgb(0x29, 0xb8, 0xdb)
    } else {
        rgb(0xff, 0xff, 0xff)
    }
}

/// One axis of the 6x6x6 color cube.
pub open spec fn cube_level(v: int) -> int {
    if v == 0 {
        0
    } else {
        55 + 40 * v
    }
}

/// The 256-color palette: sixteen named colors, a 6x6x6 cube and a ramp of
/// twenty-four grays.
pub open spec fn palette(idx: int) -> Rgb {
    if idx < 16 {
        named_color(idx)
    } else if idx < 232 {
        let i = idx - 16;
        rgb(cube_level(i / 36), cube_level((i / 6) % 6), cube_level(i % 6))
    } else {
        let v = 8 + 10 * (idx - 232);
        rgb(v, v, v)
    }
}

fn cube(v: u8) -> (level: u8)
    requires
        v <= 5,
    ensures
        level == cube_level(v as int),
{
    if v == 0 {
        0
    } else {
        55 + v * 40
    }
}

fn named(idx: u8) -> (c: Rgb)
    requires
        idx < 16,
    ensures
        c == named_color(idx as int),
{
    match idx {
        0 => Rgb { r: 0x1e, g: 0x1e, b: 0x1e },
        1 => Rgb { r: 0xcd, g: 0x31, b: 0x31 },
        2 => Rgb { r: 0x0d, g: 0xbc, b: 0x79 },
        3 => Rgb { r: 0xe5, g: 0xe5, b: 0x10 },
        4 => Rgb { r: 0x24, g: 0x72, b: 0xc8 },
        5 => Rgb { r: 0xbc, g: 0x3f, b: 0xbc },
        6 => Rgb { r: 0x11, g: 0xa8, b: 0xcd },
        7 => Rgb { r: 0xe5, g: 0xe5, b: 0xe5 },
        8 => Rgb { r: 0x66, g: 0x66, b: 0x66 },
        9 => Rgb { r: 0xf1, g: 0x4c, b: 0x4c },
        10 => Rgb { r: 0x23, g: 0xd1, b: 0x8b },
        11 => Rgb { r: 0xf5, g: 0xf5, b: 0x43 },
        12 => Rgb { r: 0x3b, g: 0x8e, b: 0xea },
        13 => Rgb { r: 0xd6, g: 0x70, b: 0xd6 },
        14 => Rgb { r: 0x29, g: 0xb8, b: 0xdb },
        _ => Rgb { r: 0xff, g: 0xff, b: 0xff },
    }
}

/// The color of a palette entry.
pub fn ansi_256(idx: u8) -> (c: Rgb)
    ensures
        c == palette(idx as int),
{
    if idx < 16 {
        named(idx)
    } else if idx < 232 {
        let i: u8 = idx - 16;
        assert((i % 36) / 6 == (i / 6) % 6) by (nonlinear_arith)
            requires
                0 <= i < 216,
        ;
        Rgb { r: cube(i / 36), g: cube((i % 36) / 6), b: cube(i % 6) }
    } else {
        let v: u8 = 8 + (idx - 232) * 10;
        Rgb { r: v, g: v, b: v }
    }
}

/// No two entries of the cube are the same color.
pub proof fn cube_entries_differ(a: int, b: int)
    requires
        16 <= a < b < 232,
    ensures
        palette(a) != palette(b),
{
    let i = a - 16;
    let j = b - 16;
    assert(i == 36 * (i / 36) + 6 * ((i / 6) % 6) + i % 6);
    assert(j == 36 * (j / 36) + 6 * ((j / 6) % 6) + j % 6);
}

/// What a requested color is shown as, `default` standing for the terminal's
/// own.
pub open spec fn shown_color(c: TermColor, default: Rgb) -> Rgb {
    match c {
        TermColor::Default => default,
        TermColor::Idx(i) => palette(i as int),
        TermColor::Rgb(r, g, b) => Rgb { r, g, b },
    }
}

/// What a requested color is shown as.
pub fn to_color(c: TermColor, default: Rgb) -> (shown: Rgb)
    ensures
        shown == shown_color(c, default),
{
    match c {
        TermColor::Default => default,
        TermColor::Idx(i) => ansi_256(i),
        TermColor::Rgb(r, g, b) => Rgb { r, g, b },
    }
}

/// The sixteen named colors, written as numbers of red, green and blue.
pub proof fn named_colors(idx: int)
    requires
        0 <= idx < 16,
    ensures
        ({
            let table = seq![
                0x1e1e1eint, 0xcd3131, 0x0dbc79, 0xe5e510, 0x2472c8, 0xbc3fbc, 0x11a8cd, 0xe5e5e5,
                0x666666, 0xf14c4c, 0x23d18b, 0xf5f543, 0x3b8eea, 0xd670d6, 0x29b8db, 0xffffff,
            ];
            let c = palette(idx);
            c.r * 0x10000 + c.g * 0x100 + c.b == table[idx]
        }),
{
}

/// The entries of the cube: red counts thirty-sixes, green sixes and blue
/// ones, each through the levels 0, 95, 135, 175, 215 and 255.
pub proof fn cube_colors(r: int, g: int, b: int)
    requires
        0 <= r < 6,
        0 <= g < 6,
        0 <= b < 6,
    ensures
        ({
            let level = seq![0int, 95, 135, 175, 215, 255];
            let c = palette(16 + 36 * r + 6 * g + b);
            c.r == level[r] && c.g == level[g] && c.b == level[b]
        }),
{
    let i = 36 * r + 6 * g + b;
    assert(i / 36 == r);
    assert(i / 6 == 6 * r + g);
    assert((6 * r + g) % 6 == g);
    assert(i % 6 == b);
}

/// The entries after the cube are grays, from 8 up in steps of ten.
pub proof fn gray_colors(k: int)
    requires
        0 <= k < 24,
    ensures
        ({
            let c = palette(232 + k);
            c.r == 8 + 10 * k && c.g == c.r && c.b == c.r
        }),
{
}

/// A program gets the color that it asks for: a direct one as it is, a palette
/// entry from the palette, and the terminal's own where it asks for none.
pub proof fn asked_colors_are_shown(r: u8, g: u8, b: u8, idx: u8, own: Rgb)
    ensures
        shown_color(TermColor::Rgb(r, g, b), own) == (Rgb { r, g, b }),
        shown_color(TermColor::Idx(idx), own) == palette(idx as int),
        shown_color(TermColor::Default, own) == own,
{
}

} // verus!

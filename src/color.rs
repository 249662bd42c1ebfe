use vstd::prelude::*;

verus! {

/// Default foreground color (white).
pub const FG_COLOR: u32 = 0xFFFFFF;

/// Default background color (black).
pub const BG_COLOR: u32 = 0x000000;

/// The sixteen-entry ANSI palette: 0..=7 the normal colors, 8..=15 the bright ones.
pub open spec fn palette(i: int) -> u32 {
    if i == 0 { 0x000000 }
    else if i == 1 { 0xCC0000 }
    else if i == 2 { 0x00CC00 }
    else if i == 3 { 0xCCCC00 }
    else if i == 4 { 0x0000CC }
    else if i == 5 { 0xCC00CC }
    else if i == 6 { 0x00CCCC }
    else if i == 7 { 0xCCCCCC }
    else if i == 8 { 0x666666 }
    else if i == 9 { 0xFF0000 }
    else if i == 10 { 0x00FF00 }
    else if i == 11 { 0xFFFF00 }
    else if i == 12 { 0x0000FF }
    else if i == 13 { 0xFF00FF }
    else if i == 14 { 0x00FFFF }
    else { 0xFFFFFF }
}

/// The color an SGR code selects, if it is one of the palette codes.
pub open spec fn ansi_color(code: u8) -> Option<u32> {
    if 30 <= code <= 37 {
        Some(palette(code - 30))
    } else if 40 <= code <= 47 {
        Some(palette(code - 40))
    } else if 90 <= code <= 97 {
        Some(palette(code - 90 + 8))
    } else if 100 <= code <= 107 {
        Some(palette(code - 100 + 8))
    } else {
        None
    }
}

fn palette_entry(i: u8) -> (r: u32)
    requires
        i < 16,
    ensures
        r == palette(i as int),
{
    match i {
        0 => 0x000000,
        1 => 0xCC0000,
        2 => 0x00CC00,
        3 => 0xCCCC00,
        4 => 0x0000CC,
        5 => 0xCC00CC,
        6 => 0x00CCCC,
        7 => 0xCCCCCC,
        8 => 0x666666,
        9 => 0xFF0000,
        10 => 0x00FF00,
        11 => 0xFFFF00,
        12 => 0x0000FF,
        13 => 0xFF00FF,
        14 => 0x00FFFF,
        _ => 0xFFFFFF,
    }
}

/// Converts an ANSI SGR color code to an RGB color.
pub fn ansi_to_rgb(code: u8) -> (r: Option<u32>)
    ensures
        r == ansi_color(code),
{
    if 30 <= code && code <= 37 {
        Some(palette_entry(code - 30))
    } else if 40 <= code && code <= 47 {
        Some(palette_entry(code - 40))
    } else if 90 <= code && code <= 97 {
        Some(palette_entry(code - 90 + 8))
    } else if 100 <= code && code <= 107 {
        Some(palette_entry(code - 100 + 8))
    } else {
        None
    }
}

} // verus!

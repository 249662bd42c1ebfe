use simplefb_console::color::{ansi_to_rgb, BG_COLOR, FG_COLOR};

#[test]
fn foreground_codes_map_to_palette() {
    assert_eq!(ansi_to_rgb(30), Some(0x000000));
    assert_eq!(ansi_to_rgb(31), Some(0xCC0000));
    assert_eq!(ansi_to_rgb(34), Some(0x0000CC));
    assert_eq!(ansi_to_rgb(37), Some(0xCCCCCC));
}

#[test]
fn background_codes_map_to_palette() {
    assert_eq!(ansi_to_rgb(40), Some(0x000000));
    assert_eq!(ansi_to_rgb(42), Some(0x00CC00));
    assert_eq!(ansi_to_rgb(47), Some(0xCCCCCC));
}

#[test]
fn bright_codes_map_to_upper_palette() {
    assert_eq!(ansi_to_rgb(90), Some(0x666666));
    assert_eq!(ansi_to_rgb(91), Some(0xFF0000));
    assert_eq!(ansi_to_rgb(97), Some(0xFFFFFF));
    assert_eq!(ansi_to_rgb(100), Some(0x666666));
    assert_eq!(ansi_to_rgb(103), Some(0xFFFF00));
    assert_eq!(ansi_to_rgb(107), Some(0xFFFFFF));
}

#[test]
fn other_codes_have_no_color() {
    for code in [0u8, 1, 29, 38, 39, 48, 49, 89, 98, 99, 108, 255] {
        assert_eq!(ansi_to_rgb(code), None);
    }
}

#[test]
fn default_colors_are_white_on_black() {
    assert_eq!(FG_COLOR, 0xFFFFFF);
    assert_eq!(BG_COLOR, 0x000000);
}

use simplefb_console::{FramebufferConfig, LogBuffer, SimpleFbConsole};

const RED: u32 = 0xCC0000;
const WHITE: u32 = 0xFFFFFF;
const BLACK: u32 = 0x000000;

fn console(width: usize, height: usize, font_height: usize, cap: usize) -> SimpleFbConsole {
    let config = FramebufferConfig { base_addr: 0x1000, width, height, font_height };
    SimpleFbConsole::new(config, LogBuffer::new(cap))
}

fn pixel(c: &SimpleFbConsole, x: usize, y: usize) -> u32 {
    c.framebuffer().pixel(x, y)
}

fn snapshot(c: &SimpleFbConsole) -> Vec<Vec<u32>> {
    let fb = c.framebuffer();
    (0..fb.height()).map(|y| fb.row(y).to_vec()).collect()
}

#[test]
fn red_hi_scenario() {
    let mut c = console(128, 128, 16, 256);
    assert_eq!(c.grid_size(), (8, 8));
    c.write_bytes(b"\x1b[31mHi\x1b[0m\n");
    // 'H': bitmap row 0 is 0x33, so columns 0,1 and 4,5 of the source are lit.
    assert_eq!(pixel(&c, 0, 0), RED);
    assert_eq!(pixel(&c, 1, 1), RED);
    assert_eq!(pixel(&c, 4, 0), BLACK);
    assert_eq!(pixel(&c, 8, 6), RED);
    assert_eq!(pixel(&c, 0, 15), BLACK);
    // 'i': bitmap row 0 is 0x0C.
    assert_eq!(pixel(&c, 16, 0), BLACK);
    assert_eq!(pixel(&c, 16 + 4, 0), RED);
    assert_eq!(c.cursor(), (0, 1));
    assert_eq!(c.fg_color(), WHITE);
    assert_eq!(c.bg_color(), BLACK);
    c.write_byte(b'H');
    assert_eq!(pixel(&c, 0, 16), WHITE);
    assert_eq!(pixel(&c, 4, 16), BLACK);
}

#[test]
fn tab_from_column_five_reaches_eight() {
    let mut c = console(128, 64, 8, 64);
    c.write_bytes(b"abcde");
    assert_eq!(c.cursor(), (5, 0));
    c.write_byte(b'\t');
    assert_eq!(c.cursor(), (8, 0));
}

#[test]
fn tab_from_multiple_of_four_advances_four() {
    let mut c = console(128, 64, 8, 64);
    c.write_byte(b'\t');
    assert_eq!(c.cursor(), (4, 0));
    c.write_bytes(b"abcd");
    assert_eq!(c.cursor(), (8, 0));
    c.write_byte(b'\t');
    assert_eq!(c.cursor(), (12, 0));
}

#[test]
fn tab_draws_background_cells() {
    let mut c = console(64, 16, 8, 64);
    c.write_bytes(b"\x1b[44m\t");
    assert_eq!(c.cursor(), (4, 0));
    assert_eq!(pixel(&c, 0, 0), 0x0000CC);
    assert_eq!(pixel(&c, 31, 7), 0x0000CC);
    assert_eq!(pixel(&c, 32, 0), BLACK);
}

#[test]
fn sgr_39_after_31_restores_default_foreground() {
    let mut c = console(64, 64, 8, 64);
    c.write_bytes(b"\x1b[31m");
    assert_eq!(c.fg_color(), RED);
    c.write_bytes(b"\x1b[39m");
    assert_eq!(c.fg_color(), WHITE);
}

#[test]
fn sgr_0_restores_both_defaults() {
    let mut c = console(64, 64, 8, 64);
    c.write_bytes(b"\x1b[1;92;103m");
    assert_eq!(c.fg_color(), 0x00FF00);
    assert_eq!(c.bg_color(), 0xFFFF00);
    c.write_bytes(b"\x1b[0m");
    assert_eq!(c.fg_color(), WHITE);
    assert_eq!(c.bg_color(), BLACK);
    c.write_bytes(b"\x1b[45m\x1b[49m");
    assert_eq!(c.bg_color(), BLACK);
}

#[test]
fn empty_sgr_parameter_resets() {
    let mut c = console(64, 64, 8, 64);
    c.set_fg_color(0x123456);
    c.set_bg_color(0x654321);
    assert_eq!(c.fg_color(), 0x123456);
    assert_eq!(c.bg_color(), 0x654321);
    c.write_bytes(b"\x1b[m");
    assert_eq!(c.fg_color(), WHITE);
    assert_eq!(c.bg_color(), BLACK);
}

#[test]
fn oversized_parameter_saturates_and_is_ignored() {
    let mut c = console(64, 64, 8, 64);
    c.write_bytes(b"\x1b[32m\x1b[99999m");
    assert_eq!(c.fg_color(), 0x00CC00);
    assert_eq!(c.cursor(), (0, 0));
}

#[test]
fn unknown_sequences_are_dropped() {
    let mut c = console(64, 64, 8, 64);
    c.write_bytes(b"\x1bX\x1b[2J\x1b[31H");
    assert_eq!(c.cursor(), (0, 0));
    assert_eq!(c.fg_color(), WHITE);
    assert_eq!(snapshot(&c), vec![vec![BLACK; 64]; 64]);
    c.write_byte(b'A');
    assert_eq!(c.cursor(), (1, 0));
}

#[test]
fn carriage_return_and_wrap() {
    let mut c = console(32, 16, 8, 64);
    c.write_bytes(b"abc\r");
    assert_eq!(c.cursor(), (0, 0));
    c.write_bytes(b"abcd");
    assert_eq!(c.cursor(), (4, 0));
    c.write_byte(b'e');
    assert_eq!(c.cursor(), (1, 1));
}

#[test]
fn scroll_moves_rows_up_and_clears_bottom() {
    let mut c = console(16, 16, 8, 64);
    c.write_bytes(b"H\n");
    assert_eq!(c.cursor(), (0, 1));
    let before = snapshot(&c);
    c.write_bytes(b"\x1b[41m\n");
    assert_eq!(c.cursor(), (0, 1));
    let after = snapshot(&c);
    for y in 0..8 {
        assert_eq!(after[y], before[y + 8]);
    }
    for y in 8..16 {
        assert_eq!(after[y], vec![0xCC0000; 16]);
    }
    for _ in 0..10 {
        c.write_byte(b'\n');
        assert_eq!(c.cursor().1, 1);
    }
}

#[test]
fn replay_reproduces_live_state() {
    let mut c = console(64, 32, 8, 256);
    c.write_bytes(b"ab\x1b[31mcd\tX\r\n\x1b[1;44mzz\x1b[0mq\x1b[33");
    let live = snapshot(&c);
    let cursor = c.cursor();
    let (fg, bg) = (c.fg_color(), c.bg_color());
    c.redraw_from_log();
    assert_eq!(snapshot(&c), live);
    assert_eq!(c.cursor(), cursor);
    assert_eq!((c.fg_color(), c.bg_color()), (fg, bg));
    // the parser state was replayed too: the pending parameter completes now
    c.write_byte(b'm');
    assert_eq!(c.fg_color(), 0xCCCC00);
}

#[test]
fn replay_twice_is_idempotent() {
    let mut c = console(32, 16, 8, 8);
    c.write_bytes(b"\x1b[32mhello world\n!");
    c.redraw_from_log();
    let first = (snapshot(&c), c.cursor(), c.fg_color(), c.bg_color());
    c.redraw_from_log();
    let second = (snapshot(&c), c.cursor(), c.fg_color(), c.bg_color());
    assert_eq!(first, second);
    assert_eq!(c.log_buffer_len(), 8);
}

#[test]
fn replay_does_not_grow_history() {
    let mut c = console(64, 64, 8, 100);
    c.write_bytes(b"abc\n");
    assert_eq!(c.log_buffer_len(), 4);
    c.redraw_from_log();
    assert_eq!(c.log_buffer_len(), 4);
}

#[test]
fn font_change_clamps_cursor_then_redraws() {
    let mut c = console(64, 64, 8, 256);
    c.write_bytes(b"\n\n\n\n\n\nabcdefg");
    assert_eq!(c.cursor(), (7, 6));
    c.set_font_height(16);
    assert_eq!(c.grid_size(), (4, 4));
    assert_eq!(c.cursor(), (3, 3));
    assert_eq!(c.config().font_height, 16);
    c.redraw_from_log();
    // six newlines on four rows scroll three times; "abcdefg" wraps after four
    assert_eq!(c.cursor(), (3, 3));
}

#[test]
fn zero_font_height_means_eight() {
    let mut c = console(64, 32, 0, 16);
    assert_eq!(c.grid_size(), (8, 4));
    assert_eq!(c.config().font_height, 8);
    c.set_font_height(32);
    assert_eq!(c.grid_size(), (2, 1));
    c.set_font_height(0);
    assert_eq!(c.grid_size(), (8, 4));
}

#[test]
fn downscaled_glyph_samples_lower_source_pixels() {
    let mut c = console(8, 4, 4, 16);
    c.write_byte(b'H');
    // cell 4: target (dx, dy) samples source (2*dx, 2*dy); 'H' row 0 is 0x33
    assert_eq!(pixel(&c, 0, 0), WHITE);
    assert_eq!(pixel(&c, 1, 0), BLACK);
    assert_eq!(pixel(&c, 2, 0), WHITE);
    assert_eq!(pixel(&c, 3, 0), BLACK);
    assert_eq!(pixel(&c, 4, 0), BLACK);
}

#[test]
fn non_ascii_byte_draws_question_mark() {
    let mut a = console(8, 8, 8, 4);
    let mut b = console(8, 8, 8, 4);
    a.write_byte(0xC8);
    b.write_byte(b'?');
    assert_eq!(snapshot(&a), snapshot(&b));
    // '?' row 0 is 0x1E
    assert_eq!(pixel(&a, 0, 0), BLACK);
    assert_eq!(pixel(&a, 1, 0), WHITE);
    assert_ne!(snapshot(&a), vec![vec![BLACK; 8]; 8]);
}

#[test]
fn clear_uses_current_background() {
    let mut c = console(16, 16, 8, 16);
    c.write_bytes(b"ab\x1b[42m");
    c.clear();
    assert_eq!(c.cursor(), (0, 0));
    assert_eq!(snapshot(&c), vec![vec![0x00CC00; 16]; 16]);
    assert_eq!(c.log_buffer_len(), 7);
}

#[test]
fn picture_is_clipped_and_short_data_ignored() {
    let mut c = console(8, 8, 8, 4);
    c.draw_picture(6, 7, 3, 2, &[1, 2, 3, 4, 5, 6]);
    assert_eq!(pixel(&c, 6, 7), 1);
    assert_eq!(pixel(&c, 7, 7), 2);
    assert_eq!(pixel(&c, 5, 7), BLACK);
    c.draw_picture(0, 0, 2, 2, &[9, 9, 9]);
    assert_eq!(pixel(&c, 0, 0), BLACK);
    c.draw_picture(0, 0, 2, 2, &[9, 8, 7, 6]);
    assert_eq!(pixel(&c, 1, 0), 8);
    assert_eq!(pixel(&c, 0, 1), 7);
    assert_eq!(c.cursor(), (0, 0));
}

#[test]
fn picture_on_bare_framebuffer() {
    let mut fb = simplefb_console::Framebuffer::new(4, 3, 5);
    simplefb_console::picture::draw_picture(&mut fb, usize::MAX, 0, 2, 1, &[1, 2]);
    assert_eq!(fb.row(0).to_vec(), vec![5, 5, 5, 5]);
    simplefb_console::picture::draw_picture(&mut fb, 1, 1, 2, 2, &[1, 2, 3, 4]);
    assert_eq!(fb.row(1).to_vec(), vec![5, 1, 2, 5]);
    assert_eq!(fb.row(2).to_vec(), vec![5, 3, 4, 5]);
    fb.draw_pixel(10, 10, 0);
    fb.scroll_up(1, 0);
    assert_eq!(fb.row(0).to_vec(), vec![5, 1, 2, 5]);
    assert_eq!(fb.row(2).to_vec(), vec![0, 0, 0, 0]);
}

#[test]
fn glyph_at_cell_origin_after_wrap_fills_whole_cell() {
    let mut c = console(16, 8, 8, 8);
    c.write_bytes(b"\x1b[41mab");
    assert_eq!(c.cursor(), (2, 0));
    // 'b' sits in the last cell; its cell's background reaches the right edge
    assert_eq!(pixel(&c, 15, 7), 0xCC0000);
}

use vstd::prelude::*;
use crate::buffer::{LogBuffer, push_spec, push_all_spec};
use crate::color::{FG_COLOR, BG_COLOR, ansi_to_rgb, ansi_color};
use crate::config::FramebufferConfig;
use crate::font::{glyph_for, glyph_of, glyph_bit};
use crate::framebuffer::{Framebuffer, filled, scrolled, plotted};
use crate::picture::{draw_picture, picture_drawn};

verus! {

/// Size of the glyphs of the font, in pixels on each side.
pub const BASE_FONT_SIZE: usize = 8;

/// State of the ANSI escape sequence parser.
#[derive(Clone, Copy, PartialEq, Eq, Structural, Debug)]
pub enum AnsiState {
    Normal,
    /// After ESC (0x1B).
    Escape,
    /// After ESC `[`.
    Csi,
}

/// The state of a console as Verus sees it: cursor, colors, parser state,
/// text grid geometry and the framebuffer's pixels.
pub struct ConsoleModel {
    pub cursor_x: nat,
    pub cursor_y: nat,
    pub fg: u32,
    pub bg: u32,
    pub default_fg: u32,
    pub default_bg: u32,
    pub ansi: AnsiState,
    pub param: u8,
    pub width: nat,
    pub height: nat,
    pub cell: nat,
    pub cols: nat,
    pub rows: nat,
    pub screen: Seq<Seq<u32>>,
}

/// The color of pixel (dx, dy) of a glyph drawn in a `size` x `size` cell:
/// nearest-neighbour sampling of the 8x8 bitmap.
pub open spec fn cell_color(g: [u8; 8], size: nat, dx: int, dy: int, fg: u32, bg: u32) -> u32 {
    if glyph_bit(g@[dy * 8 / size as int], (dx * 8 / size as int) as u8) {
        fg
    } else {
        bg
    }
}

/// The grid with the rows of the cell at (x, y) above `y + rows_done` drawn, and
/// in row `y + rows_done` the pixels left of `x + cols_done`.
pub open spec fn drawn_part(
    grid: Seq<Seq<u32>>,
    x: int,
    y: int,
    size: nat,
    g: [u8; 8],
    fg: u32,
    bg: u32,
    rows_done: int,
    cols_done: int,
) -> Seq<Seq<u32>> {
    Seq::new(
        grid.len(),
        |py: int|
            Seq::new(
                grid[py].len(),
                |px: int|
                    if x <= px < x + size && y <= py < y + size && (py < y + rows_done || (py == y
                        + rows_done && px < x + cols_done)) {
                        cell_color(g, size, px - x, py - y, fg, bg)
                    } else {
                        grid[py][px]
                    },
            ),
    )
}

/// The grid with glyph `g` drawn in the `size` x `size` cell whose top left pixel is (x, y).
pub open spec fn drawn(grid: Seq<Seq<u32>>, x: int, y: int, size: nat, g: [u8; 8], fg: u32, bg: u32) -> Seq<Seq<u32>> {
    drawn_part(grid, x, y, size, g, fg, bg, size as int, 0)
}

/// The geometry and cursor bounds that every console keeps.
pub open spec fn model_wf(m: ConsoleModel) -> bool {
    &&& m.cell >= 1
    &&& m.cell * 8 <= usize::MAX
    &&& m.cols == m.width / m.cell
    &&& m.rows == m.height / m.cell
    &&& m.cols >= 1
    &&& m.rows >= 1
    &&& m.cursor_x <= m.cols
    &&& m.cursor_y < m.rows
    &&& m.screen.len() == m.height
    &&& forall|y: int| 0 <= y < m.height ==> #[trigger] m.screen[y].len() == m.width
}

/// Cursor to the start of the next line, scrolling the screen up by one text
/// row when the cursor was on the last one.
pub open spec fn new_line_spec(m: ConsoleModel) -> ConsoleModel {
    if m.cursor_y + 1 >= m.rows {
        ConsoleModel {
            cursor_x: 0,
            cursor_y: (m.rows - 1) as nat,
            screen: scrolled(m.screen, m.width, m.cell, m.bg),
            ..m
        }
    } else {
        ConsoleModel { cursor_x: 0, cursor_y: m.cursor_y + 1, ..m }
    }
}

/// Draws the glyph of `code` at the cursor, wrapping to a new line first when
/// the cursor is past the last column, and moves the cursor one column on.
pub open spec fn put_char_spec(m: ConsoleModel, code: u8) -> ConsoleModel {
    let m1 = if m.cursor_x >= m.cols { new_line_spec(m) } else { m };
    ConsoleModel {
        screen: drawn(
            m1.screen,
            (m1.cursor_x * m1.cell) as int,
            (m1.cursor_y * m1.cell) as int,
            m1.cell,
            glyph_of(code),
            m1.fg,
            m1.bg,
        ),
        cursor_x: m1.cursor_x + 1,
        ..m1
    }
}

/// `n` spaces put one after the other.
pub open spec fn put_spaces_spec(m: ConsoleModel, n: nat) -> ConsoleModel
    decreases n,
{
    if n == 0 {
        m
    } else {
        put_char_spec(put_spaces_spec(m, (n - 1) as nat), 0x20)
    }
}

/// What an SGR parameter does to the colors.
pub open spec fn sgr_spec(m: ConsoleModel, p: u8) -> ConsoleModel {
    if p == 0 {
        ConsoleModel { fg: m.default_fg, bg: m.default_bg, ..m }
    } else if (30 <= p <= 37) || (90 <= p <= 97) {
        ConsoleModel { fg: ansi_color(p)->Some_0, ..m }
    } else if (40 <= p <= 47) || (100 <= p <= 107) {
        ConsoleModel { bg: ansi_color(p)->Some_0, ..m }
    } else if p == 39 {
        ConsoleModel { fg: m.default_fg, ..m }
    } else if p == 49 {
        ConsoleModel { bg: m.default_bg, ..m }
    } else {
        m
    }
}

/// The CSI parameter after digit `d`: `p * 10 + d`, saturating at 255.
pub open spec fn param_spec(p: u8, d: u8) -> u8 {
    if p * 10 + d > 255 {
        255
    } else {
        (p * 10 + d) as u8
    }
}

/// What interpreting one byte does to the console.
pub open spec fn step_spec(m: ConsoleModel, b: u8) -> ConsoleModel {
    match m.ansi {
        AnsiState::Normal => {
            if b == 0x1B {
                ConsoleModel { ansi: AnsiState::Escape, ..m }
            } else if b == 0x0A {
                new_line_spec(m)
            } else if b == 0x0D {
                ConsoleModel { cursor_x: 0, ..m }
            } else if b == 0x09 {
                put_spaces_spec(m, (4 - m.cursor_x % 4) as nat)
            } else {
                put_char_spec(m, b)
            }
        },
        AnsiState::Escape => {
            if b == 0x5B {
                ConsoleModel { ansi: AnsiState::Csi, param: 0, ..m }
            } else {
                ConsoleModel { ansi: AnsiState::Normal, ..m }
            }
        },
        AnsiState::Csi => {
            if 0x30 <= b <= 0x39 {
                ConsoleModel { param: param_spec(m.param, (b - 0x30) as u8), ..m }
            } else if b == 0x3B {
                ConsoleModel { param: 0, ..sgr_spec(m, m.param) }
            } else if b == 0x6D {
                ConsoleModel { ansi: AnsiState::Normal, param: 0, ..sgr_spec(m, m.param) }
            } else {
                ConsoleModel { ansi: AnsiState::Normal, param: 0, ..m }
            }
        },
    }
}

/// The console after interpreting each byte of `bytes` in order.
pub open spec fn feed_spec(m: ConsoleModel, bytes: Seq<u8>) -> ConsoleModel
    decreases bytes.len(),
{
    if bytes.len() == 0 {
        m
    } else {
        step_spec(feed_spec(m, bytes.drop_last()), bytes.last())
    }
}

/// The console with cursor at the origin, default colors, the parser in its
/// normal state and the screen cleared to the default background.
pub open spec fn reset_spec(m: ConsoleModel) -> ConsoleModel {
    ConsoleModel {
        cursor_x: 0,
        cursor_y: 0,
        fg: m.default_fg,
        bg: m.default_bg,
        ansi: AnsiState::Normal,
        param: 0,
        screen: filled(m.width, m.height, m.default_bg),
        ..m
    }
}

/// The cell size a requested font height stands for: 0 means the base font size.
pub open spec fn cell_size_for(font_height: usize) -> nat {
    if font_height == 0 {
        BASE_FONT_SIZE as nat
    } else {
        font_height as nat
    }
}

/// A text cell fits inside the framebuffer: column `c` of a grid with
/// `n / cell` columns ends no further than pixel `n`.
proof fn lemma_cell_fits(c: nat, cell: nat, n: nat)
    requires
        cell >= 1,
        c < n / cell,
    ensures
        c * cell + cell <= n,
{
    vstd::arithmetic::div_mod::lemma_fundamental_div_mod(n as int, cell as int);
    let k = n / cell;
    assert(c * cell + cell <= k * cell) by (nonlinear_arith)
        requires
            c < k,
            cell >= 1,
    ;
    assert(k * cell == cell * k) by (nonlinear_arith);
}

/// Nearest-neighbour sampling stays inside the 8x8 bitmap.
proof fn lemma_sample_in_glyph(d: nat, size: nat)
    requires
        d < size,
    ensures
        d * 8 / size < 8,
{
    assert(d * 8 < 8 * size) by (nonlinear_arith)
        requires
            d < size,
    ;
    vstd::arithmetic::div_mod::lemma_div_by_multiple_is_strongly_ordered((d * 8) as int, (8 * size) as int, 8, size as int);
    vstd::arithmetic::div_mod::lemma_div_multiples_vanish(8, size as int);
}

/// Simple framebuffer console with a configurable font size and a log buffer
/// of what was written.
pub struct SimpleFbConsole {
    config: FramebufferConfig,
    cursor_x: usize,
    cursor_y: usize,
    max_cols: usize,
    max_rows: usize,
    fg_color: u32,
    bg_color: u32,
    default_fg_color: u32,
    default_bg_color: u32,
    log_buffer: LogBuffer,
    ansi_state: AnsiState,
    ansi_param: u8,
    fb: Framebuffer,
}

impl SimpleFbConsole {
    /// The console's state.
    pub closed spec fn model(&self) -> ConsoleModel {
        ConsoleModel {
            cursor_x: self.cursor_x as nat,
            cursor_y: self.cursor_y as nat,
            fg: self.fg_color,
            bg: self.bg_color,
            default_fg: self.default_fg_color,
            default_bg: self.default_bg_color,
            ansi: self.ansi_state,
            param: self.ansi_param,
            width: self.config.width as nat,
            height: self.config.height as nat,
            cell: self.config.font_height as nat,
            cols: self.max_cols as nat,
            rows: self.max_rows as nat,
            screen: self.fb.grid(),
        }
    }

    /// The bytes written so far that the log buffer still holds, oldest first.
    pub closed spec fn history(&self) -> Seq<u8> {
        self.log_buffer.contents()
    }

    /// The capacity of the log buffer.
    pub closed spec fn history_capacity(&self) -> nat {
        self.log_buffer.capacity()
    }

    /// The address of the display memory the pixels are meant for.
    pub closed spec fn base_addr(&self) -> usize {
        self.config.base_addr
    }

    pub closed spec fn wf(&self) -> bool {
        &&& self.log_buffer.wf()
        &&& self.log_buffer.contents().len() <= self.log_buffer.capacity()
        &&& self.fb.wf()
        &&& self.fb.spec_width() == self.config.width
        &&& self.fb.spec_height() == self.config.height
        &&& model_wf(self.model())
    }

    /// Every well-formed console keeps its geometry and cursor bounds, and a
    /// history no longer than its capacity.
    pub proof fn lemma_wf(&self)
        requires
            self.wf(),
        ensures
            model_wf(self.model()),
            self.history().len() <= self.history_capacity(),
    {
    }

    /// Returns the current font width in pixels.
    fn font_width(&self) -> (r: usize)
        ensures
            r == self.model().cell,
    {
        self.config.font_height
    }

    /// Returns the current font height in pixels.
    fn font_height(&self) -> (r: usize)
        ensures
            r == self.model().cell,
    {
        self.config.font_height
    }

    /// Draws the glyph of `code` in the cell whose top left pixel is (x, y),
    /// scaling the 8x8 bitmap to the cell size by nearest-neighbour sampling.
    fn draw_char(&mut self, code: u8, x: usize, y: usize, fg_color: u32, bg_color: u32)
        requires
            old(self).wf(),
            x + old(self).model().cell <= usize::MAX,
            y + old(self).model().cell <= usize::MAX,
        ensures
            final(self).wf(),
            final(self).history() == old(self).history(),
            final(self).history_capacity() == old(self).history_capacity(),
            final(self).base_addr() == old(self).base_addr(),
            final(self).model() == (ConsoleModel {
                screen: drawn(old(self).model().screen, x as int, y as int, old(self).model().cell, glyph_of(code), fg_color, bg_color),
                ..old(self).model()
            }),
    {
        let glyph = glyph_for(code);
        let target_size = self.font_height();
        let ghost g0 = self.fb.grid();
        let ghost size = target_size as nat;
        assert(g0 =~~= drawn_part(g0, x as int, y as int, size, glyph, fg_color, bg_color, 0, 0));
        let mut dy: usize = 0;
        while dy < target_size
            invariant
                self.wf(),
                dy <= target_size,
                size == target_size,
                target_size == self.model().cell,
                x + target_size <= usize::MAX,
                y + target_size <= usize::MAX,
                self.model() == (ConsoleModel { screen: self.fb.grid(), ..old(self).model() }),
                self.log_buffer == old(self).log_buffer,
                self.config == old(self).config,
                self.fb.grid() == drawn_part(g0, x as int, y as int, size, glyph, fg_color, bg_color, dy as int, 0),
            decreases target_size - dy,
        {
            let mut dx: usize = 0;
            while dx < target_size
                invariant
                    self.wf(),
                    dy < target_size,
                    dx <= target_size,
                    size == target_size,
                    target_size == self.model().cell,
                    x + target_size <= usize::MAX,
                    y + target_size <= usize::MAX,
                    self.model() == (ConsoleModel { screen: self.fb.grid(), ..old(self).model() }),
                    self.log_buffer == old(self).log_buffer,
                    self.config == old(self).config,
                    self.fb.grid() == drawn_part(g0, x as int, y as int, size, glyph, fg_color, bg_color, dy as int, dx as int),
                decreases target_size - dx,
            {
                proof {
                    lemma_sample_in_glyph(dx as nat, size);
                    lemma_sample_in_glyph(dy as nat, size);
                }
                let src_x = dx * BASE_FONT_SIZE / target_size;
                let src_y = dy * BASE_FONT_SIZE / target_size;
                let byte = glyph[src_y];
                let is_set = (byte & (1u8 << (src_x as u8))) != 0;
                let color = if is_set { fg_color } else { bg_color };
                let ghost before = self.fb.grid();
                self.fb.draw_pixel(x + dx, y + dy, color);
                proof {
                    assert(color == cell_color(glyph, size, dx as int, dy as int, fg_color, bg_color));
                    assert(plotted(before, x + dx, y + dy, color) =~~= drawn_part(
                        g0, x as int, y as int, size, glyph, fg_color, bg_color, dy as int, dx + 1));
                }
                dx = dx + 1;
            }
            assert(self.fb.grid() =~~= drawn_part(g0, x as int, y as int, size, glyph, fg_color, bg_color, dy + 1, 0));
            dy = dy + 1;
        }
    }

    /// Scrolls the screen up by one text row, filling the freed bottom row
    /// with the background color.
    fn scroll_up(&mut self)
        requires
            old(self).wf(),
        ensures
            final(self).wf(),
            final(self).history() == old(self).history(),
            final(self).history_capacity() == old(self).history_capacity(),
            final(self).base_addr() == old(self).base_addr(),
            final(self).model() == (ConsoleModel {
                screen: scrolled(old(self).model().screen, old(self).model().width, old(self).model().cell, old(self).model().bg),
                ..old(self).model()
            }),
    {
        let font_height = self.font_height();
        proof {
            lemma_cell_fits(0, self.model().cell, self.model().height);
        }
        self.fb.scroll_up(font_height, self.bg_color);
    }

    /// Moves to a new line, scrolling if necessary.
    fn new_line(&mut self)
        requires
            old(self).wf(),
        ensures
            final(self).wf(),
            final(self).history() == old(self).history(),
            final(self).history_capacity() == old(self).history_capacity(),
            final(self).base_addr() == old(self).base_addr(),
            final(self).model() == new_line_spec(old(self).model()),
    {
        self.cursor_x = 0;
        if self.cursor_y + 1 >= self.max_rows {
            self.scroll_up();
            self.cursor_y = self.max_rows - 1;
        } else {
            self.cursor_y = self.cursor_y + 1;
        }
    }

    /// Writes a visible character to the screen.
    fn write_visible_char(&mut self, byte: u8)
        requires
            old(self).wf(),
        ensures
            final(self).wf(),
            final(self).history() == old(self).history(),
            final(self).history_capacity() == old(self).history_capacity(),
            final(self).base_addr() == old(self).base_addr(),
            final(self).model() == put_char_spec(old(self).model(), byte),
    {
        if self.cursor_x >= self.max_cols {
            self.new_line();
        }
        proof {
            lemma_cell_fits(self.cursor_x as nat, self.model().cell, self.model().width);
            lemma_cell_fits(self.cursor_y as nat, self.model().cell, self.model().height);
        }
        let x = self.cursor_x * self.font_width();
        let y = self.cursor_y * self.font_height();
        self.draw_char(byte, x, y, self.fg_color, self.bg_color);
        self.cursor_x = self.cursor_x + 1;
    }

    /// Applies one ANSI SGR (Select Graphic Rendition) parameter.
    fn process_ansi_sgr(&mut self, param: u8)
        requires
            old(self).wf(),
        ensures
            final(self).wf(),
            final(self).history() == old(self).history(),
            final(self).history_capacity() == old(self).history_capacity(),
            final(self).base_addr() == old(self).base_addr(),
            final(self).model() == sgr_spec(old(self).model(), param),
    {
        if param == 0 {
            self.fg_color = self.default_fg_color;
            self.bg_color = self.default_bg_color;
        } else if param == 1 {
            // Bold is accepted and has no visible effect.
        } else if (30 <= param && param <= 37) || (90 <= param && param <= 97) {
            if let Some(color) = ansi_to_rgb(param) {
                self.fg_color = color;
            }
        } else if (40 <= param && param <= 47) || (100 <= param && param <= 107) {
            if let Some(color) = ansi_to_rgb(param) {
                self.bg_color = color;
            }
        } else if param == 39 {
            self.fg_color = self.default_fg_color;
        } else if param == 49 {
            self.bg_color = self.default_bg_color;
        }
    }

    /// Interprets one byte: the ANSI state machine shared by live writing and
    /// history replay.
    fn interpret(&mut self, byte: u8)
        requires
            old(self).wf(),
        ensures
            final(self).wf(),
            final(self).history() == old(self).history(),
            final(self).history_capacity() == old(self).history_capacity(),
            final(self).base_addr() == old(self).base_addr(),
            final(self).model() == step_spec(old(self).model(), byte),
    {
        match self.ansi_state {
            AnsiState::Normal => {
                if byte == 0x1B {
                    self.ansi_state = AnsiState::Escape;
                } else if byte == 0x0A {
                    self.new_line();
                } else if byte == 0x0D {
                    self.cursor_x = 0;
                } else if byte == 0x09 {
                    let spaces: usize = 4 - (self.cursor_x % 4);
                    let ghost m0 = self.model();
                    let mut k: usize = 0;
                    while k < spaces
                        invariant
                            self.wf(),
                            k <= spaces,
                            spaces == 4 - m0.cursor_x % 4,
                            self.model() == put_spaces_spec(m0, k as nat),
                            self.history() == old(self).history(),
                            self.history_capacity() == old(self).history_capacity(),
                            self.base_addr() == old(self).base_addr(),
                        decreases spaces - k,
                    {
                        self.write_visible_char(0x20);
                        k = k + 1;
                    }
                } else {
                    self.write_visible_char(byte);
                }
            },
            AnsiState::Escape => {
                if byte == 0x5B {
                    self.ansi_state = AnsiState::Csi;
                    self.ansi_param = 0;
                } else {
                    self.ansi_state = AnsiState::Normal;
                }
            },
            AnsiState::Csi => {
                if 0x30 <= byte && byte <= 0x39 {
                    let next: u16 = self.ansi_param as u16 * 10 + (byte - 0x30) as u16;
                    self.ansi_param = if next > 255 { 255 } else { next as u8 };
                } else if byte == 0x3B {
                    self.process_ansi_sgr(self.ansi_param);
                    self.ansi_param = 0;
                } else if byte == 0x6D {
                    self.process_ansi_sgr(self.ansi_param);
                    self.ansi_state = AnsiState::Normal;
                    self.ansi_param = 0;
                } else {
                    self.ansi_state = AnsiState::Normal;
                    self.ansi_param = 0;
                }
            },
        }
    }

    /// Writes a single byte to the console: records it in the log buffer, then
    /// interprets it (ANSI escape sequences included).
    pub fn write_byte(&mut self, byte: u8)
        requires
            old(self).wf(),
        ensures
            model_wf(final(self).model()),
            final(self).history().len() <= final(self).history_capacity(),
            final(self).wf(),
            final(self).history() == push_spec(old(self).history(), old(self).history_capacity(), byte),
            final(self).history_capacity() == old(self).history_capacity(),
            final(self).base_addr() == old(self).base_addr(),
            final(self).model() == step_spec(old(self).model(), byte),
    {
        self.log_buffer.push(byte);
        self.interpret(byte);
    }

    /// Writes a slice of bytes to the console, one after the other.
    pub fn write_bytes(&mut self, s: &[u8])
        requires
            old(self).wf(),
        ensures
            model_wf(final(self).model()),
            final(self).history().len() <= final(self).history_capacity(),
            final(self).wf(),
            final(self).history() == push_all_spec(old(self).history(), old(self).history_capacity(), s@),
            final(self).history_capacity() == old(self).history_capacity(),
            final(self).base_addr() == old(self).base_addr(),
            final(self).model() == feed_spec(old(self).model(), s@),
    {
        let mut i: usize = 0;
        while i < s.len()
            invariant
                self.wf(),
                i <= s@.len(),
                self.history() == push_all_spec(old(self).history(), old(self).history_capacity(), s@.subrange(0, i as int)),
                self.history_capacity() == old(self).history_capacity(),
                self.base_addr() == old(self).base_addr(),
                self.model() == feed_spec(old(self).model(), s@.subrange(0, i as int)),
            decreases s@.len() - i,
        {
            proof {
                assert(s@.subrange(0, i + 1).drop_last() =~= s@.subrange(0, i as int));
            }
            self.write_byte(s[i]);
            i = i + 1;
        }
        proof {
            assert(s@.subrange(0, i as int) =~= s@);
        }
    }

    /// Creates a console on the given framebuffer geometry, recording what is
    /// written into `log_buffer`. The screen starts cleared to the default
    /// background.
    pub fn new(config: FramebufferConfig, log_buffer: LogBuffer) -> (r: Self)
        requires
            log_buffer.wf(),
            cell_size_for(config.font_height) * 8 <= usize::MAX,
            config.width as nat / cell_size_for(config.font_height) >= 1,
            config.height as nat / cell_size_for(config.font_height) >= 1,
        ensures
            model_wf(r.model()),
            r.history().len() <= r.history_capacity(),
            r.wf(),
            r.history() == log_buffer.contents(),
            r.history_capacity() == log_buffer.capacity(),
            r.base_addr() == config.base_addr,
            r.model() == (ConsoleModel {
                cursor_x: 0,
                cursor_y: 0,
                fg: FG_COLOR,
                bg: BG_COLOR,
                default_fg: FG_COLOR,
                default_bg: BG_COLOR,
                ansi: AnsiState::Normal,
                param: 0,
                width: config.width as nat,
                height: config.height as nat,
                cell: cell_size_for(config.font_height),
                cols: config.width as nat / cell_size_for(config.font_height),
                rows: config.height as nat / cell_size_for(config.font_height),
                screen: filled(config.width as nat, config.height as nat, BG_COLOR),
            }),
    {
        let font_height = if config.font_height == 0 { BASE_FONT_SIZE } else { config.font_height };
        let font_width = font_height;
        let mut config = config;
        config.font_height = font_height;
        let fb = Framebuffer::new(config.width, config.height, BG_COLOR);
        proof {
            log_buffer.lemma_wf();
        }
        SimpleFbConsole {
            config,
            cursor_x: 0,
            cursor_y: 0,
            max_cols: config.width / font_width,
            max_rows: config.height / font_height,
            fg_color: FG_COLOR,
            bg_color: BG_COLOR,
            default_fg_color: FG_COLOR,
            default_bg_color: BG_COLOR,
            log_buffer,
            ansi_state: AnsiState::Normal,
            ansi_param: 0,
            fb,
        }
    }

    /// Clears the entire screen to the current background color and moves the
    /// cursor to the origin.
    pub fn clear(&mut self)
        requires
            old(self).wf(),
        ensures
            model_wf(final(self).model()),
            final(self).history().len() <= final(self).history_capacity(),
            final(self).wf(),
            final(self).history() == old(self).history(),
            final(self).history_capacity() == old(self).history_capacity(),
            final(self).base_addr() == old(self).base_addr(),
            final(self).model() == (ConsoleModel {
                cursor_x: 0,
                cursor_y: 0,
                screen: filled(old(self).model().width, old(self).model().height, old(self).model().bg),
                ..old(self).model()
            }),
    {
        self.fb.fill(self.bg_color);
        self.cursor_x = 0;
        self.cursor_y = 0;
    }

    /// Sets the font height in pixels (0 means the base size), recomputes the
    /// text grid and pulls the cursor back inside it. The screen is not redrawn.
    pub fn set_font_height(&mut self, height: usize)
        requires
            old(self).wf(),
            cell_size_for(height) * 8 <= usize::MAX,
            old(self).model().width / cell_size_for(height) >= 1,
            old(self).model().height / cell_size_for(height) >= 1,
        ensures
            model_wf(final(self).model()),
            final(self).history().len() <= final(self).history_capacity(),
            final(self).wf(),
            final(self).history() == old(self).history(),
            final(self).history_capacity() == old(self).history_capacity(),
            final(self).base_addr() == old(self).base_addr(),
            final(self).model() == ({
                let m = old(self).model();
                let cell = cell_size_for(height);
                let cols = m.width / cell;
                let rows = m.height / cell;
                ConsoleModel {
                    cell,
                    cols,
                    rows,
                    cursor_x: if m.cursor_x >= cols { (cols - 1) as nat } else { m.cursor_x },
                    cursor_y: if m.cursor_y >= rows { (rows - 1) as nat } else { m.cursor_y },
                    ..m
                }
            }),
    {
        let height = if height == 0 { BASE_FONT_SIZE } else { height };
        self.config.font_height = height;
        self.max_cols = self.config.width / self.font_width();
        self.max_rows = self.config.height / self.font_height();
        if self.cursor_x >= self.max_cols {
            self.cursor_x = self.max_cols - 1;
        }
        if self.cursor_y >= self.max_rows {
            self.cursor_y = self.max_rows - 1;
        }
    }

    /// Sets the foreground color.
    pub fn set_fg_color(&mut self, color: u32)
        requires
            old(self).wf(),
        ensures
            model_wf(final(self).model()),
            final(self).history().len() <= final(self).history_capacity(),
            final(self).wf(),
            final(self).history() == old(self).history(),
            final(self).history_capacity() == old(self).history_capacity(),
            final(self).base_addr() == old(self).base_addr(),
            final(self).model() == (ConsoleModel { fg: color, ..old(self).model() }),
    {
        self.fg_color = color;
    }

    /// Sets the background color.
    pub fn set_bg_color(&mut self, color: u32)
        requires
            old(self).wf(),
        ensures
            model_wf(final(self).model()),
            final(self).history().len() <= final(self).history_capacity(),
            final(self).wf(),
            final(self).history() == old(self).history(),
            final(self).history_capacity() == old(self).history_capacity(),
            final(self).base_addr() == old(self).base_addr(),
            final(self).model() == (ConsoleModel { bg: color, ..old(self).model() }),
    {
        self.bg_color = color;
    }

    /// Returns the number of cached log bytes.
    pub fn log_buffer_len(&self) -> (r: usize)
        requires
            self.wf(),
        ensures
            r == self.history().len(),
            r <= self.history_capacity(),
    {
        self.log_buffer.len()
    }

    /// Redraws the screen from the log buffer (after a font size change, say):
    /// resets cursor, colors and parser, clears the screen to the default
    /// background and interprets the buffered bytes again without recording
    /// them a second time.
    pub fn redraw_from_log(&mut self)
        requires
            old(self).wf(),
        ensures
            model_wf(final(self).model()),
            final(self).history().len() <= final(self).history_capacity(),
            final(self).wf(),
            final(self).history() == old(self).history(),
            final(self).history_capacity() == old(self).history_capacity(),
            final(self).base_addr() == old(self).base_addr(),
            final(self).model() == feed_spec(reset_spec(old(self).model()), old(self).history()),
    {
        self.cursor_x = 0;
        self.cursor_y = 0;
        self.fg_color = self.default_fg_color;
        self.bg_color = self.default_bg_color;
        self.ansi_state = AnsiState::Normal;
        self.ansi_param = 0;
        self.fb.fill(self.default_bg_color);
        let bytes = self.log_buffer.to_vec();
        let ghost m0 = self.model();
        assert(m0 == reset_spec(old(self).model()));
        assert(feed_spec(m0, bytes@.subrange(0, 0)) == m0) by {
            assert(bytes@.subrange(0, 0).len() == 0);
        }
        let mut i: usize = 0;
        while i < bytes.len()
            invariant
                self.wf(),
                i <= bytes@.len(),
                bytes@ == old(self).history(),
                self.history() == old(self).history(),
                self.history_capacity() == old(self).history_capacity(),
                self.base_addr() == old(self).base_addr(),
                self.model() == feed_spec(m0, bytes@.subrange(0, i as int)),
            decreases bytes@.len() - i,
        {
            proof {
                assert(bytes@.subrange(0, i + 1).drop_last() =~= bytes@.subrange(0, i as int));
            }
            self.interpret(bytes[i]);
            i = i + 1;
        }
        proof {
            assert(bytes@.subrange(0, i as int) =~= bytes@);
        }
    }

    /// The cursor position as (column, row).
    pub fn cursor(&self) -> (r: (usize, usize))
        ensures
            r.0 == self.model().cursor_x,
            r.1 == self.model().cursor_y,
    {
        (self.cursor_x, self.cursor_y)
    }

    /// The current foreground color.
    pub fn fg_color(&self) -> (r: u32)
        ensures
            r == self.model().fg,
    {
        self.fg_color
    }

    /// The current background color.
    pub fn bg_color(&self) -> (r: u32)
        ensures
            r == self.model().bg,
    {
        self.bg_color
    }

    /// The number of text columns and rows.
    pub fn grid_size(&self) -> (r: (usize, usize))
        ensures
            r.0 == self.model().cols,
            r.1 == self.model().rows,
    {
        (self.max_cols, self.max_rows)
    }

    /// The framebuffer geometry, with the font height in use.
    pub fn config(&self) -> (r: FramebufferConfig)
        ensures
            r.base_addr == self.base_addr(),
            r.width == self.model().width,
            r.height == self.model().height,
            r.font_height == self.model().cell,
    {
        self.config
    }

    /// The pixels the console has drawn.
    pub fn framebuffer(&self) -> (r: &Framebuffer)
        requires
            self.wf(),
        ensures
            r.wf(),
            r.grid() == self.model().screen,
            r.spec_width() == self.model().width,
            r.spec_height() == self.model().height,
    {
        &self.fb
    }

    /// Draws a picture onto the screen with its top left corner at pixel
    /// (x, y), independently of the text and the cursor (see [`draw_picture`]).
    pub fn draw_picture(&mut self, x: usize, y: usize, width: usize, height: usize, data: &[u32])
        requires
            old(self).wf(),
        ensures
            model_wf(final(self).model()),
            final(self).history().len() <= final(self).history_capacity(),
            final(self).wf(),
            final(self).history() == old(self).history(),
            final(self).history_capacity() == old(self).history_capacity(),
            final(self).base_addr() == old(self).base_addr(),
            final(self).model() == (ConsoleModel {
                screen: if data@.len() < width * height {
                    old(self).model().screen
                } else {
                    picture_drawn(old(self).model().screen, x as int, y as int, width as int, height as int, data@)
                },
                ..old(self).model()
            }),
    {
        draw_picture(&mut self.fb, x, y, width, height, data);
    }
}

} // verus!

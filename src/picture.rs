use vstd::prelude::*;
use crate::framebuffer::{Framebuffer, plotted};

verus! {

/// The grid with the rows of a `width` x `height` picture placed at (x, y)
/// copied above row `y + rows_done`, and in that row the pixels left of
/// `x + cols_done`. Pixels outside the grid are dropped.
pub open spec fn picture_part(
    grid: Seq<Seq<u32>>,
    x: int,
    y: int,
    width: int,
    height: int,
    data: Seq<u32>,
    rows_done: int,
    cols_done: int,
) -> Seq<Seq<u32>> {
    Seq::new(
        grid.len(),
        |py: int|
            Seq::new(
                grid[py].len(),
                |px: int|
                    if x <= px < x + width && y <= py < y + height && (py < y + rows_done || (py == y
                        + rows_done && px < x + cols_done)) {
                        data[(py - y) * width + (px - x)]
                    } else {
                        grid[py][px]
                    },
            ),
    )
}

/// The grid with the whole picture copied in, row-major from `data`.
pub open spec fn picture_drawn(grid: Seq<Seq<u32>>, x: int, y: int, width: int, height: int, data: Seq<u32>) -> Seq<Seq<u32>> {
    picture_part(grid, x, y, width, height, data, height, 0)
}

/// Draws a picture with its top left corner at (x, y). `data` holds
/// `width * height` colors (0x00RRGGBB), row by row; a shorter `data` draws
/// nothing, and pixels that fall outside the framebuffer are skipped.
pub fn draw_picture(fb: &mut Framebuffer, x: usize, y: usize, width: usize, height: usize, data: &[u32])
    requires
        old(fb).wf(),
    ensures
        final(fb).wf(),
        final(fb).spec_width() == old(fb).spec_width(),
        final(fb).spec_height() == old(fb).spec_height(),
        final(fb).grid() == if data@.len() < width * height {
            old(fb).grid()
        } else {
            picture_drawn(old(fb).grid(), x as int, y as int, width as int, height as int, data@)
        },
{
    let n_data = data.len();
    match width.checked_mul(height) {
        Some(n) => {
            if n_data < n {
                return;
            }
        },
        None => {
            return;
        },
    }
    let fb_width = fb.width();
    let fb_height = fb.height();
    let ghost g0 = fb.grid();
    assert(g0 =~~= picture_part(g0, x as int, y as int, width as int, height as int, data@, 0, 0));
    let mut row: usize = 0;
    while row < height
        invariant
            fb.wf(),
            row <= height,
            width * height <= data@.len(),
            width * height <= usize::MAX,
            g0 == old(fb).grid(),
            fb_width == fb.spec_width(),
            fb_height == fb.spec_height(),
            fb.spec_width() == old(fb).spec_width(),
            fb.spec_height() == old(fb).spec_height(),
            fb.grid() == picture_part(g0, x as int, y as int, width as int, height as int, data@, row as int, 0),
        decreases height - row,
    {
        let mut col: usize = 0;
        while col < width
            invariant
                fb.wf(),
                row < height,
                col <= width,
                width * height <= data@.len(),
                width * height <= usize::MAX,
                g0 == old(fb).grid(),
                fb_width == fb.spec_width(),
                fb_height == fb.spec_height(),
                fb.spec_width() == old(fb).spec_width(),
                fb.spec_height() == old(fb).spec_height(),
                fb.grid() == picture_part(g0, x as int, y as int, width as int, height as int, data@, row as int, col as int),
            decreases width - col,
        {
            let ghost before = fb.grid();
            if x < fb_width && col < fb_width - x && y < fb_height && row < fb_height - y {
                proof {
                    assert(row * width + col < width * height) by (nonlinear_arith)
                        requires
                            row < height,
                            col < width,
                    ;
                    assert(row * width <= row * width + col);
                }
                let color = data[row * width + col];
                fb.draw_pixel(x + col, y + row, color);
                assert(plotted(before, x + col, y + row, color) =~~= picture_part(
                    g0, x as int, y as int, width as int, height as int, data@, row as int, col + 1));
            } else {
                assert(before =~~= picture_part(g0, x as int, y as int, width as int, height as int, data@, row as int, col + 1));
            }
            col = col + 1;
        }
        assert(fb.grid() =~~= picture_part(g0, x as int, y as int, width as int, height as int, data@, row + 1, 0));
        row = row + 1;
    }
}

} // verus!

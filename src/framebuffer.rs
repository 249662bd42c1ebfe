use vstd::prelude::*;

verus! {

/// A `height` x `width` grid whose every pixel is `color`.
pub open spec fn filled(width: nat, height: nat, color: u32) -> Seq<Seq<u32>> {
    Seq::new(height, |y: int| Seq::new(width, |x: int| color))
}

/// The grid moved up by `n` pixel rows, with `n` rows of `color` below.
pub open spec fn scrolled(grid: Seq<Seq<u32>>, width: nat, n: nat, color: u32) -> Seq<Seq<u32>> {
    grid.subrange(n as int, grid.len() as int) + filled(width, n, color)
}

/// The grid with pixel (x, y) set to `color`, or unchanged when (x, y) lies outside it.
pub open spec fn plotted(grid: Seq<Seq<u32>>, x: int, y: int, color: u32) -> Seq<Seq<u32>> {
    if 0 <= y < grid.len() && 0 <= x < grid[y].len() {
        grid.update(y, grid[y].update(x, color))
    } else {
        grid
    }
}

/// An RGB framebuffer held in memory, one vector of `0x00RRGGBB` pixels per row.
pub struct Framebuffer {
    width: usize,
    height: usize,
    rows: Vec<Vec<u32>>,
}

impl Framebuffer {
    /// The pixels, indexed first by row and then by column.
    pub closed spec fn grid(&self) -> Seq<Seq<u32>> {
        Seq::new(self.rows@.len(), |y: int| self.rows@[y]@)
    }

    pub closed spec fn spec_width(&self) -> nat {
        self.width as nat
    }

    pub closed spec fn spec_height(&self) -> nat {
        self.height as nat
    }

    pub open spec fn wf(&self) -> bool {
        &&& self.grid().len() == self.spec_height()
        &&& forall|y: int| 0 <= y < self.spec_height() ==> #[trigger] self.grid()[y].len() == self.spec_width()
    }

    /// A framebuffer of the given size with every pixel set to `color`.
    pub fn new(width: usize, height: usize, color: u32) -> (r: Self)
        ensures
            r.wf(),
            r.spec_width() == width,
            r.spec_height() == height,
            r.grid() == filled(width as nat, height as nat, color),
    {
        let mut rows: Vec<Vec<u32>> = Vec::new();
        let mut y: usize = 0;
        while y < height
            invariant
                y <= height,
                rows@.len() == y,
                forall|k: int| 0 <= k < y ==> #[trigger] rows@[k]@ == Seq::new(width as nat, |x: int| color),
            decreases height - y,
        {
            rows.push(solid_row(width, color));
            y = y + 1;
        }
        let r = Framebuffer { width, height, rows };
        assert(r.grid() =~= filled(width as nat, height as nat, color));
        r
    }

    pub fn width(&self) -> (r: usize)
        ensures
            r == self.spec_width(),
    {
        self.width
    }

    pub fn height(&self) -> (r: usize)
        ensures
            r == self.spec_height(),
    {
        self.height
    }

    /// The color of pixel (x, y).
    pub fn pixel(&self, x: usize, y: usize) -> (r: u32)
        requires
            self.wf(),
            x < self.spec_width(),
            y < self.spec_height(),
        ensures
            r == self.grid()[y as int][x as int],
    {
        assert(self.grid()[y as int].len() == self.width);
        self.rows[y][x]
    }

    /// The pixels of row `y`, left to right.
    pub fn row(&self, y: usize) -> (r: &[u32])
        requires
            self.wf(),
            y < self.spec_height(),
        ensures
            r@ == self.grid()[y as int],
    {
        assert(self.grid()[y as int] == self.rows@[y as int]@);
        self.rows[y].as_slice()
    }

    /// Sets pixel (x, y) to `color`; a pixel outside the framebuffer is skipped.
    pub fn draw_pixel(&mut self, x: usize, y: usize, color: u32)
        requires
            old(self).wf(),
        ensures
            final(self).wf(),
            final(self).spec_width() == old(self).spec_width(),
            final(self).spec_height() == old(self).spec_height(),
            final(self).grid() == plotted(old(self).grid(), x as int, y as int, color),
    {
        if x >= self.width || y >= self.height {
            return;
        }
        let ghost g = self.grid();
        assert(g[y as int].len() == self.width);
        let mut row: Vec<u32> = Vec::new();
        self.rows.set_and_swap(y, &mut row);
        row.set(x, color);
        self.rows.set_and_swap(y, &mut row);
        assert(self.grid() =~= g.update(y as int, g[y as int].update(x as int, color)));
    }

    /// Sets every pixel to `color`.
    pub fn fill(&mut self, color: u32)
        requires
            old(self).wf(),
        ensures
            final(self).wf(),
            final(self).spec_width() == old(self).spec_width(),
            final(self).spec_height() == old(self).spec_height(),
            final(self).grid() == filled(old(self).spec_width(), old(self).spec_height(), color),
    {
        let mut y: usize = 0;
        while y < self.height
            invariant
                self.wf(),
                y <= self.spec_height(),
                self.spec_width() == old(self).spec_width(),
                self.spec_height() == old(self).spec_height(),
                forall|k: int| 0 <= k < y ==> #[trigger] self.grid()[k] == Seq::new(self.spec_width(), |x: int| color),
            decreases self.spec_height() - y,
        {
            let ghost before = self.grid();
            let mut row = solid_row(self.width, color);
            self.rows.set_and_swap(y, &mut row);
            assert(self.grid() =~= before.update(y as int, Seq::new(self.spec_width(), |x: int| color)));
            y = y + 1;
        }
        assert(self.grid() =~= filled(self.spec_width(), self.spec_height(), color));
    }

    /// Moves the content up by `n` pixel rows and fills the `n` rows freed at
    /// the bottom with `color`.
    pub fn scroll_up(&mut self, n: usize, color: u32)
        requires
            old(self).wf(),
            n <= old(self).spec_height(),
        ensures
            final(self).wf(),
            final(self).spec_width() == old(self).spec_width(),
            final(self).spec_height() == old(self).spec_height(),
            final(self).grid() == scrolled(old(self).grid(), old(self).spec_width(), n as nat, color),
    {
        let ghost g = self.grid();
        let mut k: usize = 0;
        while k < n
            invariant
                k <= n,
                n <= g.len(),
                g == old(self).grid(),
                self.width == old(self).width,
                self.height == old(self).height,
                self.grid() == g.subrange(k as int, g.len() as int),
            decreases n - k,
        {
            let ghost before = self.grid();
            assert(self.rows@.len() == before.len());
            let _ = self.rows.remove(0);
            assert forall|i: int| 0 <= i < self.rows@.len() implies #[trigger] self.grid()[i] == before[i + 1] by {
            }
            assert(self.grid() =~= g.subrange(k + 1, g.len() as int));
            k = k + 1;
        }
        let mut k: usize = 0;
        while k < n
            invariant
                k <= n,
                n <= g.len(),
                g == old(self).grid(),
                self.width == old(self).width,
                self.height == old(self).height,
                self.grid() == g.subrange(n as int, g.len() as int) + filled(self.width as nat, k as nat, color),
            decreases n - k,
        {
            let ghost before = self.grid();
            self.rows.push(solid_row(self.width, color));
            assert(self.grid() =~= before.push(Seq::new(self.width as nat, |x: int| color)));
            assert(self.grid() =~= g.subrange(n as int, g.len() as int) + filled(self.width as nat, (k + 1) as nat, color));
            k = k + 1;
        }
        assert(self.grid() =~= scrolled(g, self.width as nat, n as nat, color));
    }
}

/// A row of `width` pixels of `color`.
fn solid_row(width: usize, color: u32) -> (r: Vec<u32>)
    ensures
        r@ == Seq::new(width as nat, |x: int| color),
{
    let mut row: Vec<u32> = Vec::new();
    let mut x: usize = 0;
    while x < width
        invariant
            x <= width,
            row@ == Seq::new(x as nat, |i: int| color),
        decreases width - x,
    {
        row.push(color);
        x = x + 1;
        assert(row@ =~= Seq::new(x as nat, |i: int| color));
    }
    row
}

} // verus!

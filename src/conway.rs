//! Conway's Game of Life on a bounded, double-buffered grid.
use vstd::prelude::*;

use crate::rule30::{dead_line, dead_row, is_cell, is_row};

verus! {

/// The cell at column `x`, row `y` of a grid stored row by row, counted as 0
/// when the position lies outside the grid: the grid has no wraparound.
pub open spec fn cell_at(g: Seq<u8>, w: int, h: int, x: int, y: int) -> int {
    if 0 <= x < w && 0 <= y < h {
        g[y * w + x] as int
    } else {
        0
    }
}

/// The number of live cells among the eight positions around `(x, y)` that
/// lie inside the grid.
pub open spec fn live_neighbors(g: Seq<u8>, w: int, h: int, x: int, y: int) -> int {
    cell_at(g, w, h, x - 1, y - 1) + cell_at(g, w, h, x, y - 1) + cell_at(g, w, h, x + 1, y - 1)
        + cell_at(g, w, h, x - 1, y) + cell_at(g, w, h, x + 1, y)
        + cell_at(g, w, h, x - 1, y + 1) + cell_at(g, w, h, x, y + 1)
        + cell_at(g, w, h, x + 1, y + 1)
}

/// A live cell with 2 or 3 live neighbours survives; a dead cell with
/// exactly 3 is born; every other cell is dead next.
pub open spec fn life_rule(cell: u8, neighbors: int) -> u8 {
    if (cell == 1 && (neighbors == 2 || neighbors == 3)) || (cell == 0 && neighbors == 3) {
        1
    } else {
        0
    }
}

/// The next generation of a `w` by `h` grid stored row by row.
pub open spec fn life_step(g: Seq<u8>, w: nat, h: nat) -> Seq<u8> {
    Seq::new(
        w * h,
        |i: int| life_rule(g[i], live_neighbors(g, w as int, h as int, i % (w as int), i / (w as int))),
    )
}

/// `k` generations of the grid.
pub open spec fn life_steps(g: Seq<u8>, w: nat, h: nat, k: nat) -> Seq<u8>
    decreases k,
{
    if k == 0 {
        g
    } else {
        life_step(life_steps(g, w, h, (k - 1) as nat), w, h)
    }
}

/// The grid with row `r` replaced by `row`.
pub open spec fn put_row(g: Seq<u8>, w: nat, r: nat, row: Seq<u8>) -> Seq<u8> {
    Seq::new(
        g.len(),
        |i: int| if r * w <= i < r * w + w { row[i - r * w] } else { g[i] },
    )
}

proof fn lemma_index(w: int, h: int, x: int, y: int)
    requires
        0 <= x < w,
        0 <= y < h,
    ensures
        0 <= y * w <= y * w + x < w * h,
        y * w + w <= w * h,
        (y - 1) * w == y * w - w,
        (y + 1) * w == y * w + w,
        (y * w + x) % w == x,
        (y * w + x) / w == y,
{
    assert(0 <= y * w <= y * w + x < w * h) by (nonlinear_arith)
        requires
            0 <= x < w,
            0 <= y < h,
    ;
    assert(y * w + w <= w * h) by (nonlinear_arith)
        requires
            0 <= x < w,
            0 <= y < h,
    ;
    assert((y - 1) * w == y * w - w) by (nonlinear_arith);
    assert((y + 1) * w == y * w + w) by (nonlinear_arith);
    vstd::arithmetic::div_mod::lemma_fundamental_div_mod_converse(y * w + x, w, y, x);
}

/// The number of live neighbours of `(x, y)` in `b`. Each neighbour is read
/// only where the first and last row and column checks allow it, so a corner
/// reads three cells, an edge five and an inner cell eight.
fn count_neighbors(b: &Vec<u8>, w: usize, h: usize, x: usize, y: usize) -> (n: u8)
    requires
        b@.len() == w * h,
        is_row(b@),
        x < w,
        y < h,
    ensures
        n == live_neighbors(b@, w as int, h as int, x as int, y as int),
        n <= 8,
{
    let ghost g = b@;
    let ghost (wi, hi, xi, yi) = (w as int, h as int, x as int, y as int);
    proof {
        lemma_index(wi, hi, xi, yi);
    }
    assert(y * w + x < b.len());
    let i = y * w + x;
    let mut n: u8 = 0;
    if y > 0 {
        let up = i - w;
        if x > 0 {
            assert(is_cell(b@[up - 1]));
            n = n + b[up - 1];
        }
        assert(is_cell(b@[up as int]));
        n = n + b[up];
        if x + 1 < w {
            assert(is_cell(b@[up + 1]));
            n = n + b[up + 1];
        }
    }
    assert(n == cell_at(g, wi, hi, xi - 1, yi - 1) + cell_at(g, wi, hi, xi, yi - 1) + cell_at(
        g,
        wi,
        hi,
        xi + 1,
        yi - 1,
    ));
    if x > 0 {
        assert(is_cell(b@[i - 1]));
        n = n + b[i - 1];
    }
    if x + 1 < w {
        assert(is_cell(b@[i + 1]));
        n = n + b[i + 1];
    }
    if y + 1 < h {
        proof {
            lemma_index(wi, hi, xi, yi + 1);
        }
        let down = i + w;
        if x > 0 {
            assert(is_cell(b@[down - 1]));
            n = n + b[down - 1];
        }
        assert(is_cell(b@[down as int]));
        n = n + b[down];
        if x + 1 < w {
            assert(is_cell(b@[down + 1]));
            n = n + b[down + 1];
        }
    }
    n
}

/// Writes into `dst` the next generation of the `w` by `h` grid `src`.
fn compute_next(src: &Vec<u8>, dst: &mut Vec<u8>, w: usize, h: usize)
    requires
        src@.len() == w * h,
        old(dst)@.len() == w * h,
        is_row(src@),
    ensures
        final(dst)@ == life_step(src@, w as nat, h as nat),
        is_row(final(dst)@),
{
    let ghost next = life_step(src@, w as nat, h as nat);
    let mut y: usize = 0;
    while y < h
        invariant
            src@.len() == w * h,
            dst@.len() == w * h,
            is_row(src@),
            next == life_step(src@, w as nat, h as nat),
            y <= h,
            forall|j: int| 0 <= j < y * w ==> dst@[j] == #[trigger] next[j],
        decreases h - y,
    {
        let mut x: usize = 0;
        while x < w
            invariant
                src@.len() == w * h,
                dst@.len() == w * h,
                is_row(src@),
                next == life_step(src@, w as nat, h as nat),
                y < h,
                x <= w,
                forall|j: int| 0 <= j < y * w + x ==> dst@[j] == #[trigger] next[j],
            decreases w - x,
        {
            proof {
                lemma_index(w as int, h as int, x as int, y as int);
            }
            assert(y * w + x < src.len());
            let i = y * w + x;
            let n = count_neighbors(src, w, h, x, y);
            let cell = src[i];
            let v: u8 = match (cell, n) {
                (1, 2) | (1, 3) | (0, 3) => 1,
                _ => 0,
            };
            assert(v == next[i as int]);
            dst.set(i, v);
            x = x + 1;
        }
        assert((y + 1) * w == y * w + w) by (nonlinear_arith);
        y = y + 1;
    }
    assert(h * w == w * h) by (nonlinear_arith);
    assert(dst@ =~= next);
}

/// A Game of Life grid of `width` by `height` cells, stored row by row in two
/// buffers. One buffer is current; a step writes the next generation into the
/// other and then makes it current, so the current buffer always holds a whole
/// generation.
#[derive(Clone, Debug)]
pub struct Conway {
    using_a: bool,
    buffer_a: Vec<u8>,
    buffer_b: Vec<u8>,
    width: usize,
    height: usize,
}

impl View for Conway {
    type V = Seq<u8>;

    /// The current generation, row by row.
    closed spec fn view(&self) -> Seq<u8> {
        if self.using_a {
            self.buffer_a@
        } else {
            self.buffer_b@
        }
    }
}

impl Conway {
    /// The buffer that the next step writes into.
    pub closed spec fn spare(&self) -> Seq<u8> {
        if self.using_a {
            self.buffer_b@
        } else {
            self.buffer_a@
        }
    }

    /// Whether the first buffer is the current one.
    pub closed spec fn spec_using_a(&self) -> bool {
        self.using_a
    }

    pub closed spec fn spec_width(&self) -> nat {
        self.width as nat
    }

    pub closed spec fn spec_height(&self) -> nat {
        self.height as nat
    }

    /// Both buffers hold `width * height` binary cells, neither dimension is
    /// zero, and the cell count fits in `usize`.
    pub open spec fn wf(&self) -> bool {
        &&& self.spec_width() >= 1
        &&& self.spec_height() >= 1
        &&& self.spec_width() * self.spec_height() <= usize::MAX
        &&& self@.len() == self.spec_width() * self.spec_height()
        &&& self.spare().len() == self.spec_width() * self.spec_height()
        &&& is_row(self@)
        &&& is_row(self.spare())
    }

    /// An all-dead grid of `width` by `height` cells.
    pub fn new(width: usize, height: usize) -> (r: Self)
        requires
            width >= 1,
            height >= 1,
            width * height <= usize::MAX,
        ensures
            r.wf(),
            r.spec_width() == width,
            r.spec_height() == height,
            r@ == dead_row((width * height) as nat),
    {
        let buffer_a = dead_line(width * height);
        let buffer_b = dead_line(width * height);
        Conway { using_a: true, buffer_a, buffer_b, width, height }
    }

    /// The current buffer and the spare one, in that order.
    pub fn get_buffers(&self) -> (r: (&Vec<u8>, &Vec<u8>))
        ensures
            r.0@ == self@,
            r.1@ == self.spare(),
    {
        if self.using_a {
            (&self.buffer_a, &self.buffer_b)
        } else {
            (&self.buffer_b, &self.buffer_a)
        }
    }

    /// Advances the grid one generation.
    pub fn step(&mut self)
        requires
            old(self).wf(),
        ensures
            final(self).wf(),
            final(self).spec_width() == old(self).spec_width(),
            final(self).spec_height() == old(self).spec_height(),
            final(self)@ == life_step(old(self)@, old(self).spec_width(), old(self).spec_height()),
            final(self).spare() == old(self)@,
    {
        let w = self.width;
        let h = self.height;
        if self.using_a {
            compute_next(&self.buffer_a, &mut self.buffer_b, w, h);
        } else {
            compute_next(&self.buffer_b, &mut self.buffer_a, w, h);
        }
        self.using_a = !self.using_a;
    }
    /// The current buffer and the spare one, in that order, for writing. What
    /// the caller leaves in them is what the grid holds afterwards.
    pub fn get_buffers_mut(&mut self) -> (r: (&mut Vec<u8>, &mut Vec<u8>))
        ensures
            r.0@ == old(self)@,
            r.1@ == old(self).spare(),
            final(self).spec_using_a() == old(self).spec_using_a(),
            final(self).spec_width() == old(self).spec_width(),
            final(self).spec_height() == old(self).spec_height(),
            final(self)@ == final(r.0)@,
            final(self).spare() == final(r.1)@,
    {
        if self.using_a {
            (&mut self.buffer_a, &mut self.buffer_b)
        } else {
            (&mut self.buffer_b, &mut self.buffer_a)
        }
    }
    /// Overwrites row `row_index` of the current generation with `row`.
    pub fn set_row(&mut self, row_index: usize, row: &Vec<u8>)
        requires
            old(self).wf(),
            row_index < old(self).spec_height(),
            row@.len() == old(self).spec_width(),
            is_row(row@),
        ensures
            final(self).wf(),
            final(self).spec_width() == old(self).spec_width(),
            final(self).spec_height() == old(self).spec_height(),
            final(self).spare() == old(self).spare(),
            final(self)@ == put_row(old(self)@, old(self).spec_width(), row_index as nat, row@),
    {
        let w = self.width;
        let h = self.height;
        proof {
            lemma_index(w as int, h as int, 0, row_index as int);
        }
        let base = row_index * w;
        let ghost target = put_row(self@, w as nat, row_index as nat, row@);
        let ghost before = self@;
        let (buffer, _) = self.get_buffers_mut();
        let mut x: usize = 0;
        while x < w
            invariant
                x <= w,
                base + w <= buffer@.len(),
                buffer@.len() == before.len(),
                before.len() <= usize::MAX,
                row@.len() == w,
                base == row_index * w,
                target == put_row(before, w as nat, row_index as nat, row@),
                forall|j: int|
                    0 <= j < buffer@.len() ==> #[trigger] buffer@[j] == if base <= j < base + x {
                        target[j]
                    } else {
                        before[j]
                    },
            decreases w - x,
        {
            buffer[base + x] = row[x];
            x = x + 1;
        }
        assert(buffer@ =~= target);
    }

    /// The cell at column `x`, row `y` of the current generation.
    pub fn cell(&self, x: usize, y: usize) -> (r: u8)
        requires
            self.wf(),
            x < self.spec_width(),
            y < self.spec_height(),
        ensures
            r == self@[y * self.spec_width() + x],
    {
        proof {
            lemma_index(self.width as int, self.height as int, x as int, y as int);
        }
        let (current, _) = self.get_buffers();
        current[y * self.width + x]
    }

    /// The number of columns.
    pub fn width(&self) -> (r: usize)
        ensures
            r == self.spec_width(),
    {
        self.width
    }

    /// The number of rows.
    pub fn height(&self) -> (r: usize)
        ensures
            r == self.spec_height(),
    {
        self.height
    }
}

} // verus!

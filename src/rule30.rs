//! Rule 30: the one-dimensional automaton and its sliding window of rows.
use std::collections::VecDeque;

use vstd::prelude::*;

verus! {

/// A cell is dead (0) or alive (1).
pub open spec fn is_cell(c: u8) -> bool {
    c <= 1
}

/// Every cell of the row is 0 or 1.
pub open spec fn is_row(row: Seq<u8>) -> bool {
    forall|i: int| 0 <= i < row.len() ==> #[trigger] is_cell(row[i])
}

/// Rule 30 on one neighbourhood: with `code = 4 * left + 2 * centre + right`,
/// the cell is alive next exactly when `code` is 1, 2, 3 or 4.
pub open spec fn rule30_cell(left: u8, centre: u8, right: u8) -> u8 {
    let code = 4 * left + 2 * centre + right;
    if 1 <= code <= 4 {
        1
    } else {
        0
    }
}

/// The left neighbour of cell `i`, wrapping round to the last cell.
pub open spec fn left_of(row: Seq<u8>, i: int) -> u8 {
    if i == 0 {
        row[row.len() - 1]
    } else {
        row[i - 1]
    }
}

/// The right neighbour of cell `i`, wrapping round to the first cell.
pub open spec fn right_of(row: Seq<u8>, i: int) -> u8 {
    row[(i + 1) % (row.len() as int)]
}

/// The row that follows `row` under Rule 30, with circular neighbours.
pub open spec fn next_row_spec(row: Seq<u8>) -> Seq<u8> {
    Seq::new(row.len(), |i: int| rule30_cell(left_of(row, i), row[i], right_of(row, i)))
}

proof fn lemma_bit_of_thirty(code: u8)
    requires
        code < 8,
    ensures
        (30u8 >> code) & 1u8 == (if 1 <= code <= 4 { 1u8 } else { 0u8 }),
{
    assert((30u8 >> code) & 1u8 == (if 1 <= code <= 4 { 1u8 } else { 0u8 })) by (bit_vector)
        requires
            code < 8,
    ;
}

/// The next row of `row` under Rule 30. The row wraps round: the first
/// cell's left neighbour is the last cell, and the last cell's right
/// neighbour is the first.
pub fn next_row(row: &Vec<u8>) -> (r: Vec<u8>)
    requires
        row@.len() >= 1,
        is_row(row@),
    ensures
        r@ == next_row_spec(row@),
        r@.len() == row@.len(),
        is_row(r@),
{
    let width = row.len();
    let mut next: Vec<u8> = Vec::with_capacity(width);
    let mut i: usize = 0;
    while i < width
        invariant
            width == row@.len(),
            width >= 1,
            is_row(row@),
            i <= width,
            next@.len() == i,
            forall|j: int| 0 <= j < i ==> next@[j] == #[trigger] next_row_spec(row@)[j],
        decreases width - i,
    {
        let prev = row[if i == 0 { width - 1 } else { i - 1 }];
        let mid = row[i];
        let nxt = row[(i + 1) % width];
        assert(is_cell(prev) && is_cell(mid) && is_cell(nxt));
        let code: u8 = (prev << 2u8) | (mid << 1u8) | nxt;
        assert(code == 4 * prev + 2 * mid + nxt && code < 8) by (bit_vector)
            requires
                code == (prev << 2u8) | (mid << 1u8) | nxt,
                prev <= 1,
                mid <= 1,
                nxt <= 1,
        ;
        proof {
            lemma_bit_of_thirty(code);
        }
        next.push((30u8 >> code) & 1u8);
        i = i + 1;
    }
    assert(next@ =~= next_row_spec(row@));
    next
}

/// A row of `width` dead cells.
pub open spec fn dead_row(width: nat) -> Seq<u8> {
    Seq::new(width, |_i: int| 0u8)
}

/// A dead row with its middle cell alive: the seed of the automaton.
pub open spec fn seed_row(width: nat) -> Seq<u8> {
    dead_row(width).update((width / 2) as int, 1u8)
}

/// The window that a new buffer holds: `height` dead rows, of which the last
/// (most recent) carries the seed.
pub open spec fn initial_rows(width: nat, height: nat) -> Seq<Seq<u8>> {
    Seq::new(height, |i: int| if i == height - 1 { seed_row(width) } else { dead_row(width) })
}

/// The window after one step: the next row of the newest is appended and the
/// oldest row is dropped.
pub open spec fn slide(rows: Seq<Seq<u8>>) -> Seq<Seq<u8>> {
    rows.drop_first().push(next_row_spec(rows.last()))
}

/// A vector of `len` zeros.
pub fn dead_line(len: usize) -> (r: Vec<u8>)
    ensures
        r@ == dead_row(len as nat),
{
    let mut line: Vec<u8> = Vec::with_capacity(len);
    let mut i: usize = 0;
    while i < len
        invariant
            i <= len,
            line@ == dead_row(i as nat),
        decreases len - i,
    {
        line.push(0u8);
        i = i + 1;
        assert(line@ =~= dead_row(i as nat));
    }
    line
}

/// A copy of `line`.
pub fn copy_line(line: &Vec<u8>) -> (r: Vec<u8>)
    ensures
        r@ == line@,
{
    let mut out: Vec<u8> = Vec::with_capacity(line.len());
    let mut i: usize = 0;
    while i < line.len()
        invariant
            i <= line@.len(),
            out@ == line@.subrange(0, i as int),
        decreases line@.len() - i,
    {
        out.push(line[i]);
        i = i + 1;
        assert(out@ =~= line@.subrange(0, i as int));
    }
    assert(out@ =~= line@);
    out
}

/// A sliding window of the most recent rows of a Rule 30 automaton. The
/// oldest row comes first, the newest last; the number of rows never changes.
#[derive(Clone, Debug)]
pub struct Rule30 {
    buffer: VecDeque<Vec<u8>>,
    width: usize,
    height: usize,
}

impl View for Rule30 {
    type V = Seq<Seq<u8>>;

    closed spec fn view(&self) -> Seq<Seq<u8>> {
        Seq::new(self.buffer@.len(), |i: int| self.buffer@[i]@)
    }
}

impl Rule30 {
    /// The width of every row.
    pub closed spec fn spec_width(&self) -> nat {
        self.width as nat
    }

    /// The number of rows in the window.
    pub closed spec fn spec_height(&self) -> nat {
        self.height as nat
    }

    /// The window holds `height >= 1` binary rows, each `width >= 1` long.
    pub open spec fn wf(&self) -> bool {
        &&& self.spec_width() >= 1
        &&& self.spec_height() >= 1
        &&& self@.len() == self.spec_height()
        &&& forall|i: int|
            0 <= i < self@.len() ==> (#[trigger] self@[i]).len() == self.spec_width() && is_row(
                self@[i],
            )
    }

    /// A window of `height` dead rows of `width` cells, whose newest row has
    /// its middle cell alive.
    pub fn new(width: usize, height: usize) -> (r: Self)
        requires
            width >= 1,
            height >= 1,
        ensures
            r.wf(),
            r.spec_width() == width,
            r.spec_height() == height,
            r@ == initial_rows(width as nat, height as nat),
    {
        let mut buffer: VecDeque<Vec<u8>> = VecDeque::with_capacity(height);
        let mut k: usize = 0;
        while k < height
            invariant
                width >= 1,
                k <= height,
                buffer@.len() == k,
                forall|i: int|
                    0 <= i < k ==> (#[trigger] buffer@[i])@ == if i == height - 1 {
                        seed_row(width as nat)
                    } else {
                        dead_row(width as nat)
                    },
            decreases height - k,
        {
            let mut line = dead_line(width);
            if k == height - 1 {
                line[width / 2] = 1u8;
            }
            assert(line@ =~= if k == height - 1 {
                seed_row(width as nat)
            } else {
                dead_row(width as nat)
            });
            buffer.push_back(line);
            k = k + 1;
        }
        let r = Rule30 { buffer, width, height };
        assert(r@ =~= initial_rows(width as nat, height as nat));
        r
    }

    /// Appends the next row of the newest one and removes and returns the
    /// oldest row.
    pub fn step(&mut self) -> (r: Vec<u8>)
        requires
            old(self).wf(),
        ensures
            final(self).wf(),
            final(self).spec_width() == old(self).spec_width(),
            final(self).spec_height() == old(self).spec_height(),
            r@ == old(self)@[0],
            final(self)@ == slide(old(self)@),
    {
        let new_line = self.get_next_line();
        self.buffer.push_back(new_line);
        let r = self.buffer.pop_front().unwrap();
        assert(self@ =~= slide(old(self)@));
        r
    }

    /// The row that follows the newest row of the window.
    pub fn get_next_line(&self) -> (r: Vec<u8>)
        requires
            self.wf(),
        ensures
            r@ == next_row_spec(self@.last()),
            r@.len() == self.spec_width(),
            is_row(r@),
    {
        let line = &self.buffer[self.height - 1];
        assert(self@[self.height - 1] == line@);
        next_row(line)
    }
    /// A copy of every row, oldest first.
    pub fn rows(&self) -> (r: Vec<Vec<u8>>)
        requires
            self.wf(),
        ensures
            r@.len() == self@.len(),
            forall|i: int| 0 <= i < r@.len() ==> (#[trigger] r@[i])@ == self@[i],
    {
        let mut out: Vec<Vec<u8>> = Vec::with_capacity(self.height);
        let mut k: usize = 0;
        while k < self.height
            invariant
                self.wf(),
                k <= self.height,
                out@.len() == k,
                forall|i: int| 0 <= i < k ==> (#[trigger] out@[i])@ == self@[i],
            decreases self.height - k,
        {
            out.push(copy_line(&self.buffer[k]));
            k = k + 1;
        }
        out
    }

    /// The cell at column `x` of row `y`, where row 0 is the oldest.
    pub fn cell(&self, x: usize, y: usize) -> (r: u8)
        requires
            self.wf(),
            x < self.spec_width(),
            y < self.spec_height(),
        ensures
            r == self@[y as int][x as int],
    {
        assert(self@[y as int] == self.buffer@[y as int]@);
        self.buffer[y][x]
    }

    /// The width of every row.
    pub fn width(&self) -> (r: usize)
        ensures
            r == self.spec_width(),
    {
        self.width
    }

    /// The number of rows in the window.
    pub fn height(&self) -> (r: usize)
        ensures
            r == self.spec_height(),
    {
        self.height
    }
}

} // verus!

//! The coupled simulation: a Rule 30 window whose oldest row falls into the
//! bottom row of a Game of Life grid before every generation.
use vstd::prelude::*;

use crate::conway::{life_step, put_row, Conway};
use crate::rule30::{copy_line, dead_row, initial_rows, slide, Rule30};

verus! {

/// Why a simulation could not be built.
#[derive(Clone, Copy, Debug, PartialEq, Eq, Structural)]
pub enum ConfigError {
    /// The width is zero.
    ZeroWidth,
    /// The height is below 2, which leaves a half with no rows.
    TooShort,
    /// A half of the grid holds more cells than `usize` can count.
    TooLarge,
}

/// The Life grid after one tick: the oldest automaton row replaces the bottom
/// row, then one generation passes.
pub open spec fn coupled_grid_step(rows: Seq<Seq<u8>>, grid: Seq<u8>, w: nat, h: nat) -> Seq<u8> {
    life_step(put_row(grid, w, (h - 1) as nat, rows[0]), w, h)
}

/// A Rule 30 window of `width` by `height / 2` cells beneath a Game of Life
/// grid of the same size. An odd height loses its last row to the division.
#[derive(Clone, Debug)]
pub struct Rule30Conway {
    rule30: Rule30,
    conway: Conway,
}

impl Rule30Conway {
    /// The automaton's rows, oldest first.
    pub closed spec fn spec_rows(&self) -> Seq<Seq<u8>> {
        self.rule30@
    }

    /// The current Life generation, row by row.
    pub closed spec fn spec_grid(&self) -> Seq<u8> {
        self.conway@
    }

    /// The Life generation before the current one, as it stood after the
    /// automaton's row was written into it.
    pub closed spec fn spec_previous_grid(&self) -> Seq<u8> {
        self.conway.spare()
    }

    /// The number of cells in a row of either half.
    pub closed spec fn spec_width(&self) -> nat {
        self.conway.spec_width()
    }

    /// The number of rows of the automaton's window.
    pub closed spec fn spec_line_height(&self) -> nat {
        self.rule30.spec_height()
    }

    /// The number of rows of the Life grid.
    pub closed spec fn spec_grid_height(&self) -> nat {
        self.conway.spec_height()
    }

    /// Both halves are well formed and of the same width and height.
    pub closed spec fn wf(&self) -> bool {
        &&& self.rule30.wf()
        &&& self.conway.wf()
        &&& self.rule30.spec_width() == self.conway.spec_width()
        &&& self.rule30.spec_height() == self.conway.spec_height()
    }

    /// A simulation of `width` columns whose `height` is shared equally by
    /// the two halves. The automaton starts from a single live cell in the
    /// middle of its newest row; the Life grid starts dead.
    pub fn new(width: usize, height: usize) -> (r: Self)
        requires
            width >= 1,
            height >= 2,
            width * (height / 2) <= usize::MAX,
        ensures
            r.wf(),
            r.spec_width() == width,
            r.spec_line_height() == height / 2,
            r.spec_grid_height() == height / 2,
            r.spec_rows() == initial_rows(width as nat, (height / 2) as nat),
            r.spec_grid() == dead_row((width * (height / 2)) as nat),
    {
        let rule30 = Rule30::new(width, height / 2);
        let conway = Conway::new(width, height / 2);
        Rule30Conway { rule30, conway }
    }

    /// As `new`, but refuses dimensions that leave no cells or too many.
    pub fn try_new(width: usize, height: usize) -> (r: Result<Self, ConfigError>)
        ensures
            width == 0 ==> r == Err::<Self, ConfigError>(ConfigError::ZeroWidth),
            width >= 1 && height < 2 ==> r == Err::<Self, ConfigError>(ConfigError::TooShort),
            width >= 1 && height >= 2 && width * (height / 2) > usize::MAX ==> r == Err::<
                Self,
                ConfigError,
            >(ConfigError::TooLarge),
            width >= 1 && height >= 2 && width * (height / 2) <= usize::MAX ==> (match r {
                Ok(s) => {
                    &&& s.wf()
                    &&& s.spec_width() == width
                    &&& s.spec_line_height() == height / 2
                    &&& s.spec_grid_height() == height / 2
                    &&& s.spec_rows() == initial_rows(width as nat, (height / 2) as nat)
                    &&& s.spec_grid() == dead_row((width * (height / 2)) as nat)
                },
                Err(_) => false,
            }),
    {
        if width == 0 {
            return Err(ConfigError::ZeroWidth);
        }
        if height < 2 {
            return Err(ConfigError::TooShort);
        }
        match width.checked_mul(height / 2) {
            None => Err(ConfigError::TooLarge),
            Some(_) => Ok(Rule30Conway::new(width, height)),
        }
    }

    /// One tick: the automaton produces its next row and gives up its oldest,
    /// which overwrites the bottom row of the Life grid; then the grid
    /// advances one generation.
    pub fn step(&mut self)
        requires
            old(self).wf(),
        ensures
            final(self).wf(),
            final(self).spec_width() == old(self).spec_width(),
            final(self).spec_line_height() == old(self).spec_line_height(),
            final(self).spec_grid_height() == old(self).spec_grid_height(),
            final(self).spec_rows() == slide(old(self).spec_rows()),
            final(self).spec_previous_grid() == put_row(
                old(self).spec_grid(),
                old(self).spec_width(),
                (old(self).spec_grid_height() - 1) as nat,
                old(self).spec_rows()[0],
            ),
            final(self).spec_grid() == coupled_grid_step(
                old(self).spec_rows(),
                old(self).spec_grid(),
                old(self).spec_width(),
                old(self).spec_grid_height(),
            ),
    {
        let line = self.rule30.step();
        let last = self.conway.height() - 1;
        self.conway.set_row(last, &line);
        self.conway.step();
    }

    /// A copy of both halves taken together: the automaton's rows, oldest
    /// first, and the current Life generation, row by row.
    pub fn snapshot(&self) -> (r: (Vec<Vec<u8>>, Vec<u8>))
        requires
            self.wf(),
        ensures
            r.0@.len() == self.spec_rows().len(),
            forall|i: int| 0 <= i < r.0@.len() ==> (#[trigger] r.0@[i])@ == self.spec_rows()[i],
            r.1@ == self.spec_grid(),
    {
        let (current, _) = self.conway.get_buffers();
        (self.rule30.rows(), copy_line(current))
    }

    /// The automaton's window.
    pub fn rule30(&self) -> (r: &Rule30)
        ensures
            r@ == self.spec_rows(),
            self.wf() ==> r.wf() && r.spec_width() == self.spec_width() && r.spec_height()
                == self.spec_line_height(),
    {
        &self.rule30
    }

    /// The Life grid.
    pub fn conway(&self) -> (r: &Conway)
        ensures
            r@ == self.spec_grid(),
            r.spare() == self.spec_previous_grid(),
            r.spec_width() == self.spec_width(),
            r.spec_height() == self.spec_grid_height(),
            self.wf() ==> r.wf(),
    {
        &self.conway
    }
}

} // verus!

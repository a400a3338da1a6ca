//! Styled character cells and the full-screen grids they fill.
//!
//! A grid is one terminal's worth of cells. The renderer keeps two of
//! them — the frame on screen and the frame being drawn — and emits only
//! the cells on which they differ.

use vstd::prelude::*;

verus! {

/// A terminal color, `Reset` being the terminal's default pair member.
#[derive(Clone, Copy, PartialEq, Eq, Structural, Debug)]
pub enum Color {
    Reset,
    Blue,
    Cyan,
    Green,
    Yellow,
    Red,
}

/// One styled character cell of the terminal grid.
#[derive(Clone, Copy, PartialEq, Eq, Structural, Debug)]
pub struct ScreenCell {
    pub ch: char,
    pub fg: Color,
    pub bg: Color,
}

/// The cell a cleared grid holds everywhere: a space in default colors.
pub open spec fn blank_cell() -> ScreenCell {
    ScreenCell { ch: ' ', fg: Color::Reset, bg: Color::Reset }
}

impl Default for ScreenCell {
    /// A space in the terminal's default colors.
    fn default() -> (r: Self)
        ensures
            r == blank_cell(),
    {
        ScreenCell { ch: ' ', fg: Color::Reset, bg: Color::Reset }
    }
}

/// A `height` by `width` grid of blank cells.
pub open spec fn blank_grid(width: nat, height: nat) -> Seq<Seq<ScreenCell>> {
    Seq::new(height, |y: int| Seq::new(width, |x: int| blank_cell()))
}

/// One cell replaced, if its coordinates are inside the grid; the grid
/// unchanged otherwise.
pub open spec fn grid_set(g: Seq<Seq<ScreenCell>>, x: int, y: int, c: ScreenCell) -> Seq<
    Seq<ScreenCell>,
> {
    if 0 <= y < g.len() && 0 <= x < g[y].len() {
        g.update(y, g[y].update(x, c))
    } else {
        g
    }
}

/// A full-terminal grid of styled cells.
pub struct ScreenBuffer {
    cells: Vec<Vec<ScreenCell>>,
    width: usize,
    height: usize,
}

impl ScreenBuffer {
    /// The grid's cells, row by row.
    pub closed spec fn grid(self) -> Seq<Seq<ScreenCell>> {
        Seq::new(self.cells@.len() as nat, |y: int| self.cells@[y]@)
    }

    /// Every row has the stated width and there is one row per stated
    /// height.
    pub open spec fn well_formed(self) -> bool {
        &&& self.grid().len() == self.spec_height()
        &&& forall|y: int| 0 <= y < self.grid().len() ==> (#[trigger] self.grid()[y]).len()
            == self.spec_width()
    }

    /// The grid's width in columns.
    pub closed spec fn spec_width(self) -> nat {
        self.width as nat
    }

    /// The grid's height in rows.
    pub closed spec fn spec_height(self) -> nat {
        self.height as nat
    }

    /// A blank grid of the given dimensions.
    pub fn new(width: usize, height: usize) -> (r: Self)
        ensures
            r.well_formed(),
            r.spec_width() == width,
            r.spec_height() == height,
            r.grid() == blank_grid(width as nat, height as nat),
    {
        let mut cells: Vec<Vec<ScreenCell>> = Vec::new();
        let mut y: usize = 0;
        while y < height
            invariant
                y <= height,
                cells@.len() == y,
                forall|j: int| 0 <= j < y ==> (#[trigger] cells@[j])@ == Seq::new(
                    width as nat,
                    |x: int| blank_cell(),
                ),
            decreases height - y,
        {
            let mut row: Vec<ScreenCell> = Vec::new();
            let mut x: usize = 0;
            while x < width
                invariant
                    x <= width,
                    row@.len() == x,
                    forall|i: int| 0 <= i < x ==> row@[i] == blank_cell(),
                decreases width - x,
            {
                row.push(ScreenCell { ch: ' ', fg: Color::Reset, bg: Color::Reset });
                x = x + 1;
            }
            proof {
                assert(row@ =~= Seq::new(width as nat, |x: int| blank_cell()));
            }
            cells.push(row);
            y = y + 1;
        }
        let r = ScreenBuffer { cells, width, height };
        proof {
            assert(r.grid() =~~= blank_grid(width as nat, height as nat));
        }
        r
    }

    /// The width in columns.
    pub fn width(&self) -> (r: usize)
        ensures
            r as nat == self.spec_width(),
    {
        self.width
    }

    /// The height in rows.
    pub fn height(&self) -> (r: usize)
        ensures
            r as nat == self.spec_height(),
    {
        self.height
    }

    /// Make every cell blank again.
    pub fn clear(&mut self)
        requires
            old(self).well_formed(),
        ensures
            final(self).well_formed(),
            final(self).spec_width() == old(self).spec_width(),
            final(self).spec_height() == old(self).spec_height(),
            final(self).grid() == blank_grid(old(self).spec_width(), old(self).spec_height()),
    {
        let height = self.cells.len();
        let mut y: usize = 0;
        proof {
            assert forall|j: int| 0 <= j < self.cells@.len() implies (#[trigger] self.cells@[j])@.len()
                == self.width by {
                assert(self.grid()[j] == self.cells@[j]@);
            }
        }
        while y < height
            invariant
                y <= height,
                height == self.cells@.len(),
                self.width == old(self).width,
                self.height == old(self).height,
                old(self).well_formed(),
                self.cells@.len() == old(self).cells@.len(),
                forall|j: int| 0 <= j < self.cells@.len() ==> (#[trigger] self.cells@[j])@.len()
                    == self.width,
                forall|j: int| 0 <= j < y ==> (#[trigger] self.cells@[j])@ == Seq::new(
                    self.width as nat,
                    |x: int| blank_cell(),
                ),
            decreases height - y,
        {
            let width = self.width;
            let mut row: Vec<ScreenCell> = Vec::new();
            let mut x: usize = 0;
            while x < width
                invariant
                    x <= width,
                    row@.len() == x,
                    forall|i: int| 0 <= i < x ==> row@[i] == blank_cell(),
                decreases width - x,
            {
                row.push(ScreenCell { ch: ' ', fg: Color::Reset, bg: Color::Reset });
                x = x + 1;
            }
            proof {
                assert(row@ =~= Seq::new(self.width as nat, |x: int| blank_cell()));
            }
            self.cells.set(y, row);
            y = y + 1;
        }
        proof {
            assert(self.grid() =~~= blank_grid(old(self).spec_width(), old(self).spec_height()));
        }
    }

    /// Replace one cell if its coordinates are inside the grid; do nothing
    /// otherwise.
    pub fn set(&mut self, x: usize, y: usize, c: ScreenCell)
        requires
            old(self).well_formed(),
        ensures
            final(self).well_formed(),
            final(self).spec_width() == old(self).spec_width(),
            final(self).spec_height() == old(self).spec_height(),
            final(self).grid() == grid_set(old(self).grid(), x as int, y as int, c),
    {
        if x < self.width && y < self.height {
            proof {
                assert(self.grid()[y as int] == self.cells@[y as int]@);
            }
            self.cells[y].set(x, c);
            proof {
                assert(self.grid() =~~= grid_set(old(self).grid(), x as int, y as int, c));
            }
        } else {
            proof {
                assert(self.grid() =~~= grid_set(old(self).grid(), x as int, y as int, c));
            }
        }
    }

    /// One cell of the grid.
    pub fn get(&self, x: usize, y: usize) -> (r: ScreenCell)
        requires
            self.well_formed(),
            x < self.spec_width(),
            y < self.spec_height(),
        ensures
            r == self.grid()[y as int][x as int],
    {
        self.cells[y][x]
    }
}

} // verus!

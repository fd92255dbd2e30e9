use vstd::prelude::*;

use crate::cell::Cell;

verus! {

/// What a grid holds: its rows of cells and its declared width.
pub struct GridView {
    pub rows: Seq<Seq<Cell>>,
    pub width: nat,
}

impl GridView {
    /// Every row holds exactly `width` cells.
    pub open spec fn wf(self) -> bool {
        forall|r: int| 0 <= r < self.rows.len() ==> #[trigger] self.rows[r].len() == self.width
    }

    pub open spec fn height(self) -> nat {
        self.rows.len()
    }

    pub open spec fn in_bounds(self, row: int, col: int) -> bool {
        &&& 0 <= row < self.rows.len()
        &&& 0 <= col < self.width
        &&& col < self.rows[row].len()
    }

    /// The cell at `(row, col)`, if the coordinate is inside the grid.
    pub open spec fn cell(self, row: int, col: int) -> Option<Cell> {
        if self.in_bounds(row, col) {
            Some(self.rows[row][col])
        } else {
            None
        }
    }

    /// Number of data rows: every row but the header row.
    pub open spec fn data_rows(self) -> nat {
        if self.rows.len() > 0 {
            (self.rows.len() - 1) as nat
        } else {
            0
        }
    }
}

/// A rectangular, 0-indexed grid of cells. Row 0 is the header row.
pub struct Grid {
    rows: Vec<Vec<Cell>>,
    width: usize,
}

pub open spec fn rows_view(rows: Seq<Vec<Cell>>) -> Seq<Seq<Cell>> {
    rows.map_values(|r: Vec<Cell>| r@)
}

impl View for Grid {
    type V = GridView;

    closed spec fn view(&self) -> GridView {
        GridView { rows: rows_view(self.rows@), width: self.width as nat }
    }
}

impl Grid {
    /// Builds a grid from its rows; `None` unless every row holds `width` cells.
    pub fn new(width: usize, rows: Vec<Vec<Cell>>) -> (r: Option<Grid>)
        ensures
            r is Some <==> (forall|i: int| 0 <= i < rows@.len() ==> #[trigger] rows@[i]@.len() == width),
            r matches Some(g) ==> g@ == (GridView { rows: rows_view(rows@), width: width as nat }),
            r matches Some(g) ==> g@.wf(),
    {
        let mut i: usize = 0;
        while i < rows.len()
            invariant
                i <= rows@.len(),
                forall|k: int| 0 <= k < i ==> #[trigger] rows@[k]@.len() == width,
            decreases rows@.len() - i,
        {
            if rows[i].len() != width {
                return None;
            }
            i = i + 1;
        }
        let g = Grid { rows, width };
        assert(g@.wf());
        Some(g)
    }

    /// Total number of rows, the header row included.
    pub fn height(&self) -> (r: usize)
        ensures
            r == self@.height(),
    {
        self.rows.len()
    }

    pub fn width(&self) -> (r: usize)
        ensures
            r == self@.width,
    {
        self.width
    }

    /// The cell at `(row, col)`, or `None` outside the grid.
    pub fn get(&self, row: usize, col: usize) -> (r: Option<&Cell>)
        ensures
            r is Some <==> self@.in_bounds(row as int, col as int),
            r matches Some(c) ==> *c == self@.rows[row as int][col as int],
    {
        if row < self.rows.len() && col < self.width && col < self.rows[row].len() {
            Some(&self.rows[row][col])
        } else {
            None
        }
    }
}

} // verus!

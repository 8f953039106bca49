//! The header of a grid and the HRAP coordinates of its cells.

use vstd::prelude::*;
use vstd::arithmetic::div_mod::lemma_basic_div;
use vstd::arithmetic::div_mod::lemma_div_plus_one;
use vstd::arithmetic::div_mod::lemma_fundamental_div_mod_converse;
use vstd::arithmetic::div_mod::lemma_mod_add_multiples_vanish;
use vstd::arithmetic::div_mod::lemma_small_mod;

verus! {

/// A cell of the HRAP grid, named by its column `x` and its row `y`.
#[derive(Debug, Copy, Clone, PartialEq, Eq, Structural)]
pub struct GridPoint {
    pub x: i64,
    pub y: i64,
}

/// The header of a file: the HRAP coordinates of the grid's first cell and
/// the size of the grid.
#[derive(Debug, Copy, Clone, PartialEq, Eq, Structural)]
pub struct Header {
    /// The column of the first cell.
    pub xor: i32,
    /// The row of the first cell.
    pub yor: i32,
    /// How many cells a row has.
    pub columns: i32,
    /// How many rows the grid has.
    pub rows: i32,
}

impl Header {
    /// Whether the grid has any cells: a grid that can be decoded has at
    /// least one row and one column.
    pub open spec fn has_cells(self) -> bool {
        self.columns > 0 && self.rows > 0
    }

    /// The number of cells of the grid.
    pub open spec fn cell_count(self) -> nat {
        if self.has_cells() {
            (self.rows * self.columns) as nat
        } else {
            0
        }
    }

    /// The `k`-th cell of the grid, counting from zero along the first row,
    /// then along the second, and so on.
    pub open spec fn cell(self, k: int) -> GridPoint {
        GridPoint {
            x: (self.xor + k % (self.columns as int)) as i64,
            y: (self.yor + k / (self.columns as int)) as i64,
        }
    }

    /// The cells of the grid, row by row from the first cell on.
    pub open spec fn cells(self) -> Seq<GridPoint> {
        Seq::new(self.cell_count(), |k: int| self.cell(k))
    }

    /// The header that the first four words of `vec` spell: the column and
    /// the row of the first cell, the number of columns, the number of rows.
    pub fn from_vec(vec: Vec<i32>) -> (header: Self)
        requires
            vec@.len() >= 4,
        ensures
            header.xor == vec@[0],
            header.yor == vec@[1],
            header.columns == vec@[2],
            header.rows == vec@[3],
    {
        Self { xor: vec[0], yor: vec[1], columns: vec[2], rows: vec[3] }
    }

    /// The cells of the grid, one list per row and the first row first: as
    /// many lists as the header counts rows, each of as many cells as it
    /// counts columns, from the first cell on. A count that is not positive
    /// gives none.
    pub fn generate_coordinates(&self) -> (grid: Vec<Vec<GridPoint>>)
        ensures
            grid@.len() == if self.rows > 0 {
                self.rows as int
            } else {
                0
            },
            forall|r: int|
                0 <= r < grid@.len() ==> (#[trigger] grid@[r])@.len() == if self.columns > 0 {
                    self.columns as int
                } else {
                    0
                },
            forall|r: int, c: int|
                0 <= r < grid@.len() && 0 <= c < grid@[r]@.len() ==> #[trigger] grid@[r]@[c]
                    == (GridPoint { x: (self.xor + c) as i64, y: (self.yor + r) as i64 }),
    {
        let mut grid: Vec<Vec<GridPoint>> = Vec::new();
        let mut r: i32 = 0;
        while r < self.rows
            invariant
                0 <= r,
                r <= self.rows || r == 0,
                grid@.len() == r,
                forall|i: int|
                    0 <= i < grid@.len() ==> (#[trigger] grid@[i])@.len() == if self.columns
                        > 0 {
                        self.columns as int
                    } else {
                        0
                    },
                forall|i: int, c: int|
                    0 <= i < grid@.len() && 0 <= c < grid@[i]@.len() ==> #[trigger] grid@[i]@[c]
                        == (GridPoint { x: (self.xor + c) as i64, y: (self.yor + i) as i64 }),
            decreases self.rows - r,
        {
            let y: i64 = self.yor as i64 + r as i64;
            let mut row: Vec<GridPoint> = Vec::new();
            let mut c: i32 = 0;
            while c < self.columns
                invariant
                    0 <= c,
                    c <= self.columns || c == 0,
                    row@.len() == c,
                    forall|i: int|
                        0 <= i < row@.len() ==> #[trigger] row@[i] == (GridPoint {
                            x: (self.xor + i) as i64,
                            y,
                        }),
                decreases self.columns - c,
            {
                row.push(GridPoint { x: self.xor as i64 + c as i64, y });
                c = c + 1;
            }
            grid.push(row);
            r = r + 1;
        }
        grid
    }

    /// A generator of the grid's cells, in the order of [`Header::cells`].
    pub fn into_iter(self) -> (generator: CoordinateGenerator)
        ensures
            generator.remaining() == self.cells(),
    {
        let generator = CoordinateGenerator {
            start_x: self.xor as i64,
            current_x: self.xor as i64,
            current_y: self.yor as i64,
            x_end: self.xor as i64 + self.columns as i64,
            y_end: self.yor as i64 + self.rows as i64,
        };
        proof {
            if self.has_cells() {
                assert((self.yor + self.rows - self.yor) * (self.xor + self.columns - self.xor)
                    == self.rows * self.columns) by (nonlinear_arith);
            }
        }
        generator
    }
}

/// The cell in row `r` and column `c` of a grid, both counted from zero,
/// stands at place `r * columns + c` among the grid's cells and lies `c`
/// columns and `r` rows beyond the first cell. So the lists of
/// [`Header::generate_coordinates`], read one after another, are the cells
/// in the order in which [`Header::into_iter`] hands them out.
pub proof fn lemma_cell_of_row_and_column(header: Header, r: int, c: int)
    requires
        0 <= r < header.rows,
        0 <= c < header.columns,
    ensures
        0 <= r * header.columns + c < header.cells().len(),
        header.cells()[r * header.columns + c] == (GridPoint {
            x: (header.xor + c) as i64,
            y: (header.yor + r) as i64,
        }),
{
    let columns = header.columns as int;
    let k = r * columns + c;
    assert(0 <= r * columns && r * columns + columns <= header.rows * columns)
        by (nonlinear_arith)
        requires
            0 <= r < header.rows,
            columns > 0,
    ;
    lemma_fundamental_div_mod_converse(k, columns, r, c);
}

/// Walks over the cells of a grid row by row.
pub struct CoordinateGenerator {
    start_x: i64,
    current_x: i64,
    current_y: i64,
    x_end: i64,
    y_end: i64,
}

impl CoordinateGenerator {
    #[verifier::type_invariant]
    spec fn well_formed(self) -> bool {
        &&& -0x1_0000_0000 <= self.start_x <= 0x1_0000_0000
        &&& -0x1_0000_0000 <= self.x_end <= 0x1_0000_0000
        &&& -0x1_0000_0000 <= self.y_end <= 0x1_0000_0000
        &&& -0x1_0000_0000 <= self.current_y <= 0x1_0000_0000
        &&& self.live() ==> self.start_x <= self.current_x < self.x_end
    }

    /// Whether a cell is left to hand out.
    spec fn live(self) -> bool {
        self.start_x < self.x_end && self.current_y < self.y_end
    }

    /// The cells that the generator has yet to hand out, in order.
    pub closed spec fn remaining(self) -> Seq<GridPoint> {
        if self.live() {
            let width = self.x_end - self.start_x;
            let done = self.current_x - self.start_x;
            Seq::new(
                ((self.y_end - self.current_y) * width - done) as nat,
                |i: int|
                    GridPoint {
                        x: (self.start_x + (done + i) % width) as i64,
                        y: (self.current_y + (done + i) / width) as i64,
                    },
            )
        } else {
            Seq::empty()
        }
    }

    /// Hands out the next cell, or `None` once all cells of the grid have
    /// been handed out; from then on every call returns `None`.
    pub fn next(&mut self) -> (item: Option<GridPoint>)
        ensures
            old(self).remaining().len() > 0 ==> item == Some(old(self).remaining()[0])
                && final(self).remaining() == old(self).remaining().skip(1),
            old(self).remaining().len() == 0 ==> item.is_none() && final(self).remaining()
                == old(self).remaining(),
    {
        proof {
            use_type_invariant(&*self);
        }
        if self.start_x >= self.x_end || self.current_y >= self.y_end {
            return None;
        }
        let point = GridPoint { x: self.current_x, y: self.current_y };
        let ghost width = self.x_end - self.start_x;
        let ghost done = self.current_x - self.start_x;
        let ghost rows_left = self.y_end - self.current_y;
        proof {
            assert(rows_left * width >= width) by (nonlinear_arith)
                requires
                    rows_left >= 1,
                    width >= 1,
            ;
            lemma_small_mod(done as nat, width as nat);
            lemma_basic_div(done, width);
        }
        if self.current_x + 1 == self.x_end {
            self.current_x = self.start_x;
            self.current_y = self.current_y + 1;
            proof {
                let rows_after = self.y_end - self.current_y;
                assert(rows_after * width == rows_left * width - width) by (nonlinear_arith)
                    requires
                        rows_after == rows_left - 1,
                ;
                assert(rows_after == 0 ==> rows_after * width == 0) by (nonlinear_arith);
                assert forall|i: int| 0 <= i < self.remaining().len() implies self.remaining()[i]
                    == old(self).remaining()[i + 1] by {
                    lemma_mod_add_multiples_vanish(i, width);
                    lemma_div_plus_one(i, width);
                }
            }
        } else {
            self.current_x = self.current_x + 1;
            proof {
                assert forall|i: int| 0 <= i < self.remaining().len() implies self.remaining()[i]
                    == old(self).remaining()[i + 1] by {
                }
            }
        }
        Some(point)
    }
}

} // verus!

//! A rectangular grid of numbers, stored row-major, used as the
//! longest-common-subsequence table.

use vstd::prelude::*;

verus! {

/// A `num_rows` by `num_cols` grid of numbers.
pub struct Grid {
    elems: Vec<usize>,
    num_rows: usize,
    num_cols: usize,
}

impl Grid {
    /// How many rows the grid has.
    pub closed spec fn rows(self) -> nat {
        self.num_rows as nat
    }

    /// How many columns the grid has.
    pub closed spec fn cols(self) -> nat {
        self.cols_val()
    }

    spec fn cols_val(self) -> nat {
        self.num_cols as nat
    }

    /// The value at `(row, col)` (meaningful in bounds).
    pub closed spec fn cell(self, row: int, col: int) -> usize {
        self.elems@[row * self.num_cols + col]
    }

    /// The backing storage covers the whole rectangle.
    pub closed spec fn wf(self) -> bool {
        self.elems@.len() == self.rows() * self.cols() && self.rows() * self.cols()
            <= usize::MAX
    }

    /// A grid of zeroes.
    pub fn new(num_rows: usize, num_cols: usize) -> (r: Grid)
        requires
            num_rows * num_cols <= usize::MAX,
        ensures
            r.wf(),
            r.rows() == num_rows,
            r.cols() == num_cols,
            forall|i: int, j: int| 0 <= i < num_rows && 0 <= j < num_cols ==> r.cell(i, j) == 0,
    {
        let n = num_rows * num_cols;
        let mut elems: Vec<usize> = Vec::new();
        let mut k: usize = 0;
        while k < n
            invariant
                k <= n,
                elems@.len() == k,
                forall|m: int| 0 <= m < k ==> elems@[m] == 0,
            decreases n - k,
        {
            elems.push(0);
            k += 1;
        }
        let r = Grid { elems, num_rows, num_cols };
        proof {
            assert forall|i: int, j: int|
                0 <= i < num_rows && 0 <= j < num_cols implies r.cell(i, j) == 0 by {
                lemma_grid_index(num_rows as int, num_cols as int, i, j);
            }
        }
        r
    }

    /// The grid's size as `(rows, cols)`.
    pub fn size(&self) -> (r: (usize, usize))
        ensures
            r.0 == self.rows(),
            r.1 == self.cols(),
    {
        (self.num_rows, self.num_cols)
    }

    /// The value at `(row, col)`, or `None` out of bounds.
    pub fn get(&self, row: usize, col: usize) -> (r: Option<usize>)
        requires
            self.wf(),
        ensures
            r is Some <==> row < self.rows() && col < self.cols(),
            r matches Some(v) ==> v == self.cell(row as int, col as int),
    {
        if row < self.num_rows && col < self.num_cols {
            proof {
                lemma_grid_index(self.num_rows as int, self.num_cols as int, row as int,
                    col as int);
            }
            Some(self.elems[row * self.num_cols + col])
        } else {
            None
        }
    }

    /// Sets the value at `(row, col)`; fails out of bounds. Every other
    /// cell keeps its value.
    pub fn set(&mut self, row: usize, col: usize, val: usize) -> (r: Result<(), ()>)
        requires
            old(self).wf(),
        ensures
            final(self).wf(),
            final(self).rows() == old(self).rows(),
            final(self).cols() == old(self).cols(),
            r is Ok <==> row < old(self).rows() && col < old(self).cols(),
            r is Ok ==> final(self).cell(row as int, col as int) == val,
            r is Err ==> *final(self) == *old(self),
            forall|i: int, j: int|
                0 <= i < old(self).rows() && 0 <= j < old(self).cols() && !(i == row && j == col)
                    ==> final(self).cell(i, j) == old(self).cell(i, j),
    {
        if row < self.num_rows && col < self.num_cols {
            proof {
                lemma_grid_index(self.num_rows as int, self.num_cols as int, row as int,
                    col as int);
            }
            let idx = row * self.num_cols + col;
            self.elems.set(idx, val);
            proof {
                assert forall|i: int, j: int|
                    0 <= i < self.num_rows && 0 <= j < self.num_cols && !(i == row && j == col)
                        implies self.cell(i, j) == old(self).cell(i, j) by {
                    lemma_grid_index(self.num_rows as int, self.num_cols as int, i, j);
                    lemma_grid_index_injective(self.num_cols as int, i, j, row as int, col as int);
                }
            }
            Ok(())
        } else {
            Err(())
        }
    }
}

/// A row-major index stays inside the rectangle's storage.
proof fn lemma_grid_index(rows: int, cols: int, i: int, j: int)
    by (nonlinear_arith)
    requires
        0 <= i < rows,
        0 <= j < cols,
    ensures
        0 <= i * cols + j < rows * cols,
{
}

/// Distinct cells of a row have distinct row-major indices.
proof fn lemma_grid_index_injective(cols: int, i: int, j: int, r: int, c: int)
    by (nonlinear_arith)
    requires
        0 <= j < cols,
        0 <= c < cols,
        i >= 0,
        r >= 0,
        !(i == r && j == c),
    ensures
        i * cols + j != r * cols + c,
{
}

} // verus!

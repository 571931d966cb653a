use vstd::prelude::*;

use crate::error::LandXMLError;

verus! {

/// A raster of elevation samples, stored row by row from the top row down.
///
/// A cell either holds a sample or holds nothing. The fields are open to the
/// caller, so a grid may be put together by hand; `well_formed` says when the
/// samples fit the declared shape, and `validate` decides it.
#[derive(Debug, Clone)]
pub struct DemGrid<T> {
    /// Number of rows, counted along decreasing Y.
    pub rows: usize,
    /// Number of columns, counted along increasing X.
    pub cols: usize,
    /// The cells in row-major order.
    pub values: Vec<Option<T>>,
    /// Identifier of the spatial reference, once somebody has attached one.
    pub epsg_code: Option<u32>,
}

/// How much of a raster holds data.
#[derive(Debug, Clone, Copy, PartialEq, Eq)]
pub struct GridStatistics {
    /// Number of cells that hold a sample.
    pub valid_count: usize,
    /// Number of cells.
    pub total_count: usize,
}

/// The number of cells that a shape asks for, capped at the largest length a
/// vector can have.
pub open spec fn capped_cell_count(rows: usize, cols: usize) -> usize {
    if rows * cols <= usize::MAX {
        (rows * cols) as usize
    } else {
        usize::MAX
    }
}

/// The cells among `cells` that hold a sample.
pub open spec fn present<T>(cells: Seq<Option<T>>) -> Seq<Option<T>> {
    cells.filter(|cell: Option<T>| cell is Some)
}

/// A cell of a row-major raster lies inside it exactly when its offset does.
pub proof fn lemma_offset_in_range(rows: int, cols: int, row: int, col: int)
    requires
        0 <= row < rows,
        0 <= col < cols,
    ensures
        0 <= row * cols + col < rows * cols,
{
    assert(row * cols >= 0) by (nonlinear_arith)
        requires
            row >= 0,
            cols >= 0,
    ;
    assert((row + 1) * cols <= rows * cols) by (nonlinear_arith)
        requires
            row + 1 <= rows,
            cols >= 0,
    ;
    assert((row + 1) * cols == row * cols + cols) by (nonlinear_arith);
}

/// Row and column of the cell that stands at `index` when a raster of `rows` by
/// `cols` cells is laid out row by row; nothing for an index past the last
/// cell.
pub fn cell_position(rows: usize, cols: usize, index: usize) -> (place: Option<(usize, usize)>)
    ensures
        place is Some <==> index < rows * cols,
        place matches Some((row, col)) ==> {
            &&& row < rows
            &&& col < cols
            &&& row * cols + col == index
            &&& row == index / cols
            &&& col == index % cols
        },
{
    if cols == 0 {
        assert(rows * cols == 0) by (nonlinear_arith)
            requires
                cols == 0,
        ;
        return None;
    }
    let row = index / cols;
    let col = index % cols;
    proof {
        vstd::arithmetic::div_mod::lemma_fundamental_div_mod(index as int, cols as int);
        assert(cols * row == row * cols) by (nonlinear_arith);
    }
    if row < rows {
        proof {
            lemma_offset_in_range(rows as int, cols as int, row as int, col as int);
        }
        Some((row, col))
    } else {
        proof {
            assert(row * cols >= rows * cols) by (nonlinear_arith)
                requires
                    row >= rows,
                    cols > 0,
            ;
        }
        None
    }
}

impl<T> DemGrid<T> {
    /// The samples are exactly as many as the shape asks for.
    pub open spec fn well_formed(&self) -> bool {
        self.values@.len() == self.rows * self.cols
    }

    /// Whether `(row, col)` names a cell.
    pub open spec fn holds(&self, row: int, col: int) -> bool {
        0 <= row < self.rows && 0 <= col < self.cols
    }

    /// What the cell `(row, col)` holds.
    pub open spec fn cell(&self, row: int, col: int) -> Option<T> {
        self.values@[row * self.cols + col]
    }

    /// A raster of the given shape in which no cell holds a sample and to which
    /// no spatial reference is attached.
    pub fn new(rows: usize, cols: usize) -> (grid: Self)
        requires
            rows * cols <= usize::MAX,
        ensures
            grid.rows == rows,
            grid.cols == cols,
            grid.epsg_code is None,
            grid.well_formed(),
            forall|i: int| 0 <= i < grid.values@.len() ==> grid.values@[i] is None,
    {
        let total: usize = rows * cols;
        let mut values: Vec<Option<T>> = Vec::new();
        let mut filled: usize = 0;
        while filled < total
            invariant
                filled <= total,
                values@.len() == filled,
                forall|i: int| 0 <= i < filled ==> values@[i] is None,
            decreases total - filled,
        {
            values.push(None);
            filled = filled + 1;
        }
        DemGrid { rows, cols, values, epsg_code: None }
    }

    /// Takes samples that were gathered elsewhere, one per cell in row-major
    /// order, and refuses them when their number does not fit the shape.
    pub fn from_values(rows: usize, cols: usize, values: Vec<Option<T>>) -> (made: Result<
        Self,
        LandXMLError,
    >)
        ensures
            made is Ok <==> values@.len() == rows * cols,
            made matches Ok(grid) ==> {
                &&& grid.rows == rows
                &&& grid.cols == cols
                &&& grid.values@ == values@
                &&& grid.epsg_code is None
                &&& grid.well_formed()
            },
            made matches Err(error) ==> error == (LandXMLError::InvalidGridSize {
                expected: capped_cell_count(rows, cols),
                actual: values@.len() as usize,
            }),
    {
        let grid = DemGrid { rows, cols, values, epsg_code: None };
        match grid.validate() {
            Ok(()) => Ok(grid),
            Err(error) => Err(error),
        }
    }

    /// Decides `well_formed`, and says in the error how many samples were asked
    /// for and how many are there.
    pub fn validate(&self) -> (checked: Result<(), LandXMLError>)
        ensures
            checked is Ok <==> self.well_formed(),
            checked matches Err(error) ==> error == (LandXMLError::InvalidGridSize {
                expected: capped_cell_count(self.rows, self.cols),
                actual: self.values@.len() as usize,
            }),
    {
        let actual = self.values.len();
        match self.rows.checked_mul(self.cols) {
            Some(expected) => {
                if actual == expected {
                    Ok(())
                } else {
                    Err(LandXMLError::InvalidGridSize { expected, actual })
                }
            },
            None => Err(LandXMLError::InvalidGridSize { expected: usize::MAX, actual }),
        }
    }

    /// Decides `holds`.
    pub fn contains(&self, row: usize, col: usize) -> (inside: bool)
        ensures
            inside == self.holds(row as int, col as int),
    {
        row < self.rows && col < self.cols
    }

    /// The place of a cell in `values`.
    fn offset(&self, row: usize, col: usize) -> (at: usize)
        requires
            self.well_formed(),
            self.holds(row as int, col as int),
        ensures
            at == row * self.cols + col,
            at < self.values@.len(),
    {
        let length = self.values.len();
        proof {
            assert(self.rows * self.cols == length);
            lemma_offset_in_range(self.rows as int, self.cols as int, row as int, col as int);
            assert(0 <= row * self.cols) by (nonlinear_arith)
                requires
                    0 <= row,
                    0 <= self.cols,
            ;
        }
        row * self.cols + col
    }

    /// The sample of a cell; nothing for a cell that holds none and for a cell
    /// outside the raster.
    pub fn get_value(&self, row: usize, col: usize) -> (sample: Option<T>) where T: Copy
        requires
            self.well_formed(),
        ensures
            sample == if self.holds(row as int, col as int) {
                self.cell(row as int, col as int)
            } else {
                None
            },
    {
        if row < self.rows && col < self.cols {
            let at = self.offset(row, col);
            self.values[at]
        } else {
            None
        }
    }

    /// Puts a sample into a cell. A cell outside the raster is an error, and the
    /// raster stays as it was.
    pub fn set_value(&mut self, row: usize, col: usize, value: T) -> (done: Result<
        (),
        LandXMLError,
    >)
        requires
            old(self).well_formed(),
        ensures
            final(self).rows == old(self).rows,
            final(self).cols == old(self).cols,
            final(self).epsg_code == old(self).epsg_code,
            final(self).well_formed(),
            done is Ok <==> old(self).holds(row as int, col as int),
            done is Ok ==> final(self).values@ == old(self).values@.update(
                row * old(self).cols + col,
                Some(value),
            ),
            done matches Err(error) ==> {
                &&& final(self).values@ == old(self).values@
                &&& error == (LandXMLError::InvalidGridIndex {
                    row,
                    col,
                    max_row: old(self).rows,
                    max_col: old(self).cols,
                })
            },
    {
        self.store(row, col, Some(value))
    }

    /// Empties a cell. A cell outside the raster is an error, and the raster
    /// stays as it was.
    pub fn clear_value(&mut self, row: usize, col: usize) -> (done: Result<(), LandXMLError>)
        requires
            old(self).well_formed(),
        ensures
            final(self).rows == old(self).rows,
            final(self).cols == old(self).cols,
            final(self).epsg_code == old(self).epsg_code,
            final(self).well_formed(),
            done is Ok <==> old(self).holds(row as int, col as int),
            done is Ok ==> final(self).values@ == old(self).values@.update(
                row * old(self).cols + col,
                None,
            ),
            done matches Err(error) ==> {
                &&& final(self).values@ == old(self).values@
                &&& error == (LandXMLError::InvalidGridIndex {
                    row,
                    col,
                    max_row: old(self).rows,
                    max_col: old(self).cols,
                })
            },
    {
        self.store(row, col, None)
    }

    fn store(&mut self, row: usize, col: usize, content: Option<T>) -> (done: Result<
        (),
        LandXMLError,
    >)
        requires
            old(self).well_formed(),
        ensures
            final(self).rows == old(self).rows,
            final(self).cols == old(self).cols,
            final(self).epsg_code == old(self).epsg_code,
            final(self).well_formed(),
            done is Ok <==> old(self).holds(row as int, col as int),
            done is Ok ==> final(self).values@ == old(self).values@.update(
                row * old(self).cols + col,
                content,
            ),
            done matches Err(error) ==> {
                &&& final(self).values@ == old(self).values@
                &&& error == (LandXMLError::InvalidGridIndex {
                    row,
                    col,
                    max_row: old(self).rows,
                    max_col: old(self).cols,
                })
            },
    {
        if row >= self.rows || col >= self.cols {
            return Err(
                LandXMLError::InvalidGridIndex {
                    row,
                    col,
                    max_row: self.rows,
                    max_col: self.cols,
                },
            );
        }
        let at = self.offset(row, col);
        self.values.set(at, content);
        Ok(())
    }

    /// The cell that lies `col_steps` cell widths right of the left edge and
    /// `row_steps` cell heights below the top edge; nothing when that is outside
    /// the raster.
    pub fn world_to_grid(&self, col_steps: i32, row_steps: i32) -> (place: Option<(usize, usize)>)
        ensures
            place is Some <==> self.holds(row_steps as int, col_steps as int),
            place matches Some((row, col)) ==> row == row_steps && col == col_steps,
    {
        if row_steps < 0 || col_steps < 0 {
            return None;
        }
        let row = row_steps as usize;
        let col = col_steps as usize;
        if row < self.rows && col < self.cols {
            Some((row, col))
        } else {
            None
        }
    }

    /// Counts the cells that hold a sample.
    pub fn statistics(&self) -> (stats: GridStatistics)
        ensures
            stats.total_count == self.values@.len(),
            stats.valid_count == present(self.values@).len(),
            stats.valid_count <= stats.total_count,
    {
        let mut valid: usize = 0;
        let mut i: usize = 0;
        while i < self.values.len()
            invariant
                i <= self.values@.len(),
                valid <= i,
                valid == present(self.values@.take(i as int)).len(),
            decreases self.values@.len() - i,
        {
            proof {
                let before = self.values@.take(i as int);
                assert(self.values@.take(i as int + 1) =~= before.push(self.values@[i as int]));
                before.lemma_filter_push(self.values@[i as int], |cell: Option<T>| cell is Some);
            }
            if self.values[i].is_some() {
                valid = valid + 1;
            }
            i = i + 1;
        }
        proof {
            assert(self.values@.take(i as int) =~= self.values@);
        }
        GridStatistics { valid_count: valid, total_count: self.values.len() }
    }

    /// Fills a raster by asking `sample` once for every cell, row by row.
    pub fn generate<F: Fn(usize, usize) -> Option<T>>(rows: usize, cols: usize, sample: &F) -> (grid:
        Self)
        requires
            rows * cols <= usize::MAX,
            forall|row: usize, col: usize|
                row < rows && col < cols ==> call_requires(*sample, (row, col)),
        ensures
            grid.rows == rows,
            grid.cols == cols,
            grid.epsg_code is None,
            grid.well_formed(),
            forall|row: usize, col: usize|
                row < rows && col < cols ==> call_ensures(
                    *sample,
                    (row, col),
                    #[trigger] grid.cell(row as int, col as int),
                ),
    {
        let mut values: Vec<Option<T>> = Vec::new();
        let mut row: usize = 0;
        while row < rows
            invariant
                row <= rows,
                rows * cols <= usize::MAX,
                values@.len() == row * cols,
                forall|r: usize, c: usize|
                    r < rows && c < cols ==> call_requires(*sample, (r, c)),
                forall|r: usize, c: usize|
                    r < row && c < cols ==> call_ensures(
                        *sample,
                        (r, c),
                        #[trigger] values@[r * cols + c],
                    ),
            decreases rows - row,
        {
            let mut col: usize = 0;
            while col < cols
                invariant
                    row < rows,
                    col <= cols,
                    rows * cols <= usize::MAX,
                    values@.len() == row * cols + col,
                    forall|r: usize, c: usize|
                        r < rows && c < cols ==> call_requires(*sample, (r, c)),
                    forall|r: usize, c: usize|
                        r < row && c < cols ==> call_ensures(
                            *sample,
                            (r, c),
                            #[trigger] values@[r * cols + c],
                        ),
                    forall|c: usize|
                        c < col ==> call_ensures(
                            *sample,
                            (row, c),
                            #[trigger] values@[row * cols + c],
                        ),
                decreases cols - col,
            {
                let got = sample(row, col);
                proof {
                    lemma_offset_in_range(rows as int, cols as int, row as int, col as int);
                    assert forall|r: usize, c: usize| r < row && c < cols implies #[trigger] (r
                        * cols + c) < values@.len() by {
                        lemma_offset_in_range(row as int, cols as int, r as int, c as int);
                    }
                }
                values.push(got);
                col = col + 1;
            }
            proof {
                assert((row + 1) * cols == row * cols + cols) by (nonlinear_arith);
            }
            row = row + 1;
        }
        DemGrid { rows, cols, values, epsg_code: None }
    }
}

} // verus!

use vstd::prelude::*;

verus! {

/// Where row `i` of a matrix comes from once row `k` has been struck out:
/// rows above `k` keep their place, rows below it move up by one. The same
/// map serves for columns.
pub open spec fn skip(i: int, k: int) -> int {
    if i < k {
        i
    } else {
        i + 1
    }
}

/// The cell at row `i`, column `j` of `n` columns laid out row by row in `s`.
pub open spec fn cell<T>(s: Seq<T>, n: int, i: int, j: int) -> T {
    s[i * n + j]
}

/// In a row-major layout of `n` columns, the cell at row `a`, column `b`
/// lies before every cell of any later row `i`.
pub proof fn lemma_row_major(a: int, b: int, i: int, n: int)
    requires
        0 <= a < i,
        0 <= b < n,
    ensures
        0 <= a * n + b < i * n,
{
    assert(a * n + b < i * n) by (nonlinear_arith)
        requires
            0 <= a < i,
            0 <= b < n,
    ;
    assert(0 <= a * n) by (nonlinear_arith)
        requires
            0 <= a,
            0 <= n,
    ;
}

/// The values `f(i, j)` for `rows` rows and `cols` columns, laid out row by
/// row; each is computed exactly once, in that order.
pub fn fill_row_major<T, F: Fn(usize, usize) -> T>(rows: usize, cols: usize, f: F) -> (cells: Vec<T>)
    requires
        rows * cols <= usize::MAX,
        forall|i: usize, j: usize| i < rows && j < cols ==> #[trigger] f.requires((i, j)),
    ensures
        cells@.len() == rows * cols,
        forall|i: int, j: int|
            0 <= i < rows && 0 <= j < cols ==> f.ensures(
                (i as usize, j as usize),
                #[trigger] cell(cells@, cols as int, i, j),
            ),
{
    let mut cells: Vec<T> = Vec::new();
    let mut i: usize = 0;
    while i < rows
        invariant
            i <= rows,
            rows * cols <= usize::MAX,
            cells@.len() == i * cols,
            forall|a: usize, b: usize| a < rows && b < cols ==> #[trigger] f.requires((a, b)),
            forall|a: int, b: int|
                0 <= a < i && 0 <= b < cols ==> f.ensures(
                    (a as usize, b as usize),
                    #[trigger] cell(cells@, cols as int, a, b),
                ),
        decreases rows - i,
    {
        let mut j: usize = 0;
        while j < cols
            invariant
                i < rows,
                j <= cols,
                rows * cols <= usize::MAX,
                cells@.len() == i * cols + j,
                forall|a: usize, b: usize| a < rows && b < cols ==> #[trigger] f.requires((a, b)),
                forall|a: int, b: int|
                    0 <= a < i && 0 <= b < cols ==> f.ensures(
                        (a as usize, b as usize),
                        #[trigger] cell(cells@, cols as int, a, b),
                    ),
                forall|b: int|
                    0 <= b < j ==> f.ensures(
                        (i, b as usize),
                        #[trigger] cell(cells@, cols as int, i as int, b),
                    ),
            decreases cols - j,
        {
            proof {
                lemma_row_major(i as int, j as int, rows as int, cols as int);
            }
            let v = f(i, j);
            let ghost before = cells@;
            cells.push(v);
            proof {
                assert forall|a: int, b: int| 0 <= a < i && 0 <= b < cols implies f.ensures(
                    (a as usize, b as usize),
                    #[trigger] cell(cells@, cols as int, a, b),
                ) by {
                    lemma_row_major(a, b, i as int, cols as int);
                    assert(cell(cells@, cols as int, a, b) == cell(before, cols as int, a, b));
                }
                assert forall|b: int| 0 <= b <= j implies f.ensures(
                    (i, b as usize),
                    #[trigger] cell(cells@, cols as int, i as int, b),
                ) by {
                    if b < j {
                        assert(cell(cells@, cols as int, i as int, b) == cell(
                            before,
                            cols as int,
                            i as int,
                            b,
                        ));
                    }
                }
            }
            j = j + 1;
        }
        proof {
            assert forall|a: int, b: int| 0 <= a < i + 1 && 0 <= b < cols implies f.ensures(
                (a as usize, b as usize),
                #[trigger] cell(cells@, cols as int, a, b),
            ) by {
                if a == i {
                }
            }
            assert(cells@.len() == (i + 1) * cols) by (nonlinear_arith)
                requires
                    cells@.len() == i * cols + cols,
            ;
        }
        i = i + 1;
    }
    cells
}

/// A square matrix of `n` rows and `n` columns, stored row by row: the cell
/// at row `i` and column `j` sits at position `i * n + j`.
///
/// The element type is left open; the arithmetic of transforms (products,
/// determinants, inverses) is built from these cell-level operations.
#[derive(Debug, Clone, PartialEq)]
pub struct Matrix<T> {
    n: usize,
    cells: Vec<T>,
}

impl<T> Matrix<T> {
    /// The cells are exactly `n * n` in number.
    pub closed spec fn wf(&self) -> bool {
        self.cells.len() == self.n * self.n
    }

    /// Number of rows (and of columns).
    pub closed spec fn spec_dim(&self) -> nat {
        self.n as nat
    }

    /// The cells, row by row.
    pub closed spec fn view(&self) -> Seq<T> {
        self.cells@
    }

    /// The cell at row `i`, column `j`.
    pub open spec fn at(&self, i: int, j: int) -> T {
        cell(self@, self.spec_dim() as int, i, j)
    }

    /// Number of rows (and of columns).
    pub fn dim(&self) -> (r: usize)
        ensures
            r == self.spec_dim(),
    {
        self.n
    }

    /// Number of cells.
    pub fn size(&self) -> (r: usize)
        requires
            self.wf(),
        ensures
            r == self.spec_dim() * self.spec_dim(),
    {
        self.cells.len()
    }

    /// The matrix of `n` rows whose cell at row `i`, column `j` is `f(i, j)`.
    ///
    /// Cells are computed row by row, each exactly once.
    pub fn from_fn<F: Fn(usize, usize) -> T>(n: usize, f: F) -> (r: Matrix<T>)
        requires
            n * n <= usize::MAX,
            forall|i: usize, j: usize| i < n && j < n ==> #[trigger] f.requires((i, j)),
        ensures
            r.wf(),
            r.spec_dim() == n,
            forall|i: int, j: int|
                0 <= i < n && 0 <= j < n ==> f.ensures((i as usize, j as usize), #[trigger] r.at(i, j)),
    {
        let cells = fill_row_major(n, n, f);
        Matrix { n, cells }
    }

    /// A matrix of `n` rows whose cells are `cells`, read row by row.
    pub fn from_buffer(n: usize, cells: Vec<T>) -> (r: Matrix<T>)
        requires
            cells@.len() == n * n,
        ensures
            r.wf(),
            r.spec_dim() == n,
            r@ == cells@,
    {
        Matrix { n, cells }
    }
}

impl<T: Copy> Matrix<T> {
    /// A matrix of `n` rows with every cell equal to `v`.
    pub fn filled(n: usize, v: T) -> (r: Matrix<T>)
        requires
            n * n <= usize::MAX,
        ensures
            r.wf(),
            r.spec_dim() == n,
            forall|i: int, j: int| 0 <= i < n && 0 <= j < n ==> #[trigger] r.at(i, j) == v,
    {
        Matrix::from_fn(n, |i: usize, j: usize| -> (c: T)
            ensures
                c == v,
            { v })
    }

    /// The cell at row `row`, column `col`.
    pub fn get(&self, row: usize, col: usize) -> (r: T)
        requires
            self.wf(),
            row < self.spec_dim(),
            col < self.spec_dim(),
        ensures
            r == self.at(row as int, col as int),
    {
        proof {
            lemma_row_major(row as int, col as int, self.n as int, self.n as int);
        }
        self.cells[row * self.n + col]
    }

    /// Replaces the cell at row `row`, column `col` by `v`; every other cell
    /// keeps its value.
    pub fn set(&mut self, row: usize, col: usize, v: T)
        requires
            old(self).wf(),
            row < old(self).spec_dim(),
            col < old(self).spec_dim(),
        ensures
            final(self).wf(),
            final(self).spec_dim() == old(self).spec_dim(),
            final(self)@ == old(self)@.update(row * old(self).spec_dim() + col, v),
            final(self).at(row as int, col as int) == v,
    {
        proof {
            lemma_row_major(row as int, col as int, self.n as int, self.n as int);
        }
        let k = row * self.n + col;
        self.cells.set(k, v);
    }

    /// The transpose: rows become columns, the cell at row `i`, column `j`
    /// being the cell at row `j`, column `i` of `self`.
    pub fn transpose(&self) -> (r: Matrix<T>)
        requires
            self.wf(),
        ensures
            r.wf(),
            r.spec_dim() == self.spec_dim(),
            forall|i: int, j: int|
                0 <= i < self.spec_dim() && 0 <= j < self.spec_dim() ==> #[trigger] r.at(i, j) == self.at(j, i),
    {
        let n = self.n;
        Matrix::from_fn(n, |i: usize, j: usize| -> (c: T)
            requires
                i < n,
                j < n,
            ensures
                c == self.at(j as int, i as int),
            { self.get(j, i) })
    }

    /// The matrix left once row `row` and column `col` are struck out of
    /// `self`; its cells keep their order.
    pub fn submatrix(&self, row: usize, col: usize) -> (r: Matrix<T>)
        requires
            self.wf(),
            row < self.spec_dim(),
            col < self.spec_dim(),
        ensures
            r.wf(),
            r.spec_dim() == self.spec_dim() - 1,
            forall|i: int, j: int|
                0 <= i < r.spec_dim() && 0 <= j < r.spec_dim() ==> #[trigger] r.at(i, j) == self.at(
                    skip(i, row as int),
                    skip(j, col as int),
                ),
    {
        let n = self.n;
        let m = n - 1;
        proof {
            assert(m * m <= n * n) by (nonlinear_arith)
                requires
                    m + 1 == n,
                    0 <= m,
            ;
        }
        Matrix::from_fn(m, |i: usize, j: usize| -> (c: T)
            requires
                i < m,
                j < m,
            ensures
                c == self.at(skip(i as int, row as int), skip(j as int, col as int)),
            {
                let si: usize = if i < row {
                    i
                } else {
                    i + 1
                };
                let sj: usize = if j < col {
                    j
                } else {
                    j + 1
                };
                self.get(si, sj)
            })
    }
}

/// Whether the cofactor at row `row`, column `col` is the negated minor:
/// the sign alternates with the parity of `row + col`.
pub fn cofactor_negated(row: usize, col: usize) -> (r: bool)
    ensures
        r == ((row + col) % 2 == 1),
{
    row % 2 != col % 2
}

} // verus!

use vstd::prelude::*;
use vstd::string::*;
use crate::scalar::Scalar;
use crate::text::{append_decimal, decimal};
use crate::vector::Vector;

verus! {

/// The mathematical model of a matrix: its dimensions and its cells in
/// row-major order.
pub struct Grid<T> {
    pub rows: nat,
    pub cols: nat,
    pub cells: Seq<T>,
}

impl<T> Grid<T> {
    /// There is exactly one cell for each pair of a row and a column.
    pub open spec fn wf(self) -> bool {
        self.cells.len() == self.rows * self.cols
    }

    /// The cell in row `i` and column `j`.
    pub open spec fn at(self, i: int, j: int) -> T {
        self.cells[i * self.cols + j]
    }

    /// Row `i`, from the first column to the last.
    pub open spec fn row(self, i: int) -> Seq<T> {
        Seq::new(self.cols, |j: int| self.at(i, j))
    }

    /// Column `j`, from the first row to the last.
    pub open spec fn col(self, j: int) -> Seq<T> {
        Seq::new(self.rows, |i: int| self.at(i, j))
    }
}

impl<T: Scalar> Grid<T> {
    /// The first `n` cells of row `i` in decimal, with a space between
    /// neighbours.
    pub open spec fn row_text(self, i: int, n: nat) -> Seq<char>
        decreases n,
    {
        if n == 0 {
            Seq::empty()
        } else if n == 1 {
            decimal(self.at(i, 0).value())
        } else {
            self.row_text(i, (n - 1) as nat) + seq![' '] + decimal(self.at(i, n - 1).value())
        }
    }

    /// The first `m` rows, each in braces, with a comma and a space between
    /// neighbours.
    pub open spec fn rows_text(self, m: nat) -> Seq<char>
        decreases m,
    {
        if m == 0 {
            Seq::empty()
        } else if m == 1 {
            seq!['{'] + self.row_text(0, self.cols) + seq!['}']
        } else {
            self.rows_text((m - 1) as nat) + seq![',', ' '] + seq!['{'] + self.row_text(
                m - 1,
                self.cols,
            ) + seq!['}']
        }
    }

    /// The matrix as text: its rows in braces, inside one more pair of
    /// braces.
    pub open spec fn text(self) -> Seq<char> {
        seq!['{'] + self.rows_text(self.rows) + seq!['}']
    }

    /// The matrix as text with its dimensions in front.
    pub open spec fn debug_text(self) -> Seq<char> {
        "Matrix { rows: "@ + decimal(self.rows as int) + ", cols: "@ + decimal(self.cols as int)
            + ", data: "@ + self.text() + " }"@
    }
}

/// The position of cell `(i, j)` lies inside a row-major sequence of
/// `rows * cols` cells.
pub proof fn lemma_cell_in_bounds(rows: nat, cols: nat, i: int, j: int)
    requires
        0 <= i < rows,
        0 <= j < cols,
    ensures
        0 <= i * cols <= i * cols + j < rows * cols,
        i * cols + j < (i + 1) * cols <= rows * cols,
{
    assert(0 <= i * cols) by (nonlinear_arith)
        requires
            0 <= i,
            0 <= cols,
    ;
    assert((i + 1) * cols == i * cols + cols) by (nonlinear_arith);
    assert((i + 1) * cols <= rows * cols) by (nonlinear_arith)
        requires
            i + 1 <= rows,
            0 <= cols,
    ;
}

/// A dense matrix, stored row by row.
pub struct Matrix<T> {
    rows: usize,
    cols: usize,
    data: Vec<T>,
}

impl<T> View for Matrix<T> {
    type V = Grid<T>;

    closed spec fn view(&self) -> Grid<T> {
        Grid { rows: self.rows as nat, cols: self.cols as nat, cells: self.data@ }
    }
}

impl<T> Matrix<T> {
    #[verifier::type_invariant]
    spec fn inv(self) -> bool {
        self.data@.len() == self.rows * self.cols
    }

    /// A matrix of `rows` rows and `cols` columns over `data`, which holds
    /// the cells row by row. The length of `data` is not checked here: it
    /// is the caller's duty that it is `rows * cols`.
    pub fn new(rows: usize, cols: usize, data: Vec<T>) -> (m: Self)
        requires
            data@.len() == rows * cols,
        ensures
            m@ == (Grid { rows: rows as nat, cols: cols as nat, cells: data@ }),
    {
        Matrix { rows, cols, data }
    }

    /// The number of rows.
    pub fn rows(&self) -> (n: usize)
        ensures
            n == self@.rows,
            self@.wf(),
    {
        proof {
            use_type_invariant(self);
        }
        self.rows
    }

    /// The number of columns.
    pub fn cols(&self) -> (n: usize)
        ensures
            n == self@.cols,
            self@.wf(),
    {
        proof {
            use_type_invariant(self);
        }
        self.cols
    }

    /// The cells, row by row.
    pub fn data(&self) -> (s: &[T])
        ensures
            s@ == self@.cells,
            self@.wf(),
    {
        proof {
            use_type_invariant(self);
        }
        self.data.as_slice()
    }
}

impl<T: Copy> Matrix<T> {
    /// A copy of row `i`.
    pub fn row(&self, i: usize) -> (r: Vector<T>)
        requires
            i < self@.rows,
        ensures
            r@ == self@.row(i as int),
    {
        proof {
            use_type_invariant(self);
        }
        let len = self.data.len();
        let mut out: Vec<T> = Vec::new();
        let mut j: usize = 0;
        while j < self.cols
            invariant
                j <= self.cols,
                i < self.rows,
                self.data@.len() == self.rows * self.cols,
                self.data@.len() == len,
                out@ == self@.row(i as int).take(j as int),
            decreases self.cols - j,
        {
            proof {
                lemma_cell_in_bounds(self.rows as nat, self.cols as nat, i as int, j as int);
            }
            out.push(self.data[i * self.cols + j]);
            j = j + 1;
            assert(out@ == self@.row(i as int).take(j as int));
        }
        assert(out@ == self@.row(i as int));
        Vector::new(out)
    }

    /// A copy of column `j`: the cells at `j`, `j + cols`, `j + 2 * cols`
    /// and so on, one of each row.
    pub fn col(&self, j: usize) -> (c: Vector<T>)
        requires
            j < self@.cols,
        ensures
            c@ == self@.col(j as int),
    {
        proof {
            use_type_invariant(self);
        }
        let len = self.data.len();
        let mut out: Vec<T> = Vec::new();
        let mut i: usize = 0;
        while i < self.rows
            invariant
                i <= self.rows,
                j < self.cols,
                self.data@.len() == self.rows * self.cols,
                self.data@.len() == len,
                out@ == self@.col(j as int).take(i as int),
            decreases self.rows - i,
        {
            proof {
                lemma_cell_in_bounds(self.rows as nat, self.cols as nat, i as int, j as int);
            }
            out.push(self.data[i * self.cols + j]);
            i = i + 1;
            assert(out@ == self@.col(j as int).take(i as int));
        }
        assert(out@ == self@.col(j as int));
        Vector::new(out)
    }
}

impl<T: Scalar> Matrix<T> {
    /// The matrix as text: each row is a pair of braces round its cells,
    /// which are in decimal with a space between neighbours; the rows stand
    /// in one more pair of braces, with a comma and a space between
    /// neighbours.
    pub fn to_string(&self) -> (s: String)
        ensures
            s@ == self@.text(),
    {
        proof {
            use_type_invariant(self);
            reveal_strlit("{");
            reveal_strlit("}");
            reveal_strlit(", ");
            reveal_strlit(" ");
        }
        let len = self.data.len();
        let mut out = String::new();
        out.append("{");
        let mut i: usize = 0;
        while i < self.rows
            invariant
                i <= self.rows,
                self.data@.len() == self.rows * self.cols,
                self.data@.len() == len,
                "{"@ == seq!['{'],
                "}"@ == seq!['}'],
                ", "@ == seq![',', ' '],
                " "@ == seq![' '],
                out@ == seq!['{'] + self@.rows_text(i as nat),
            decreases self.rows - i,
        {
            let ghost before = out@;
            if i > 0 {
                out.append(", ");
            }
            out.append("{");
            let ghost base = out@;
            let mut j: usize = 0;
            while j < self.cols
                invariant
                    j <= self.cols,
                    i < self.rows,
                    self.data@.len() == self.rows * self.cols,
                    self.data@.len() == len,
                    " "@ == seq![' '],
                    out@ == base + self@.row_text(i as int, j as nat),
                decreases self.cols - j,
            {
                if j > 0 {
                    out.append(" ");
                }
                proof {
                    lemma_cell_in_bounds(self.rows as nat, self.cols as nat, i as int, j as int);
                }
                append_decimal(&mut out, self.data[i * self.cols + j].widen());
                j = j + 1;
                assert(out@ =~= base + self@.row_text(i as int, j as nat));
            }
            out.append("}");
            i = i + 1;
            assert(out@ =~= seq!['{'] + self@.rows_text(i as nat));
        }
        out.append("}");
        out
    }

    /// The matrix as text with its dimensions in front.
    pub fn to_debug_string(&self) -> (s: String)
        ensures
            s@ == self@.debug_text(),
    {
        let body = self.to_string();
        let mut out = String::new();
        out.append("Matrix { rows: ");
        append_decimal(&mut out, self.rows as i128);
        out.append(", cols: ");
        append_decimal(&mut out, self.cols as i128);
        out.append(", data: ");
        out.append(body.as_str());
        out.append(" }");
        assert(out@ =~= self@.debug_text());
        out
    }
}

} // verus!

//! Square matrices of side 2, 3 and 4, and a matrix tagged by its side.
//!
//! The entries are of any `Copy` type; what is stated here is the structure
//! of each operation: which entry of the argument lands where.

use vstd::prelude::*;

verus! {

broadcast use vstd::array::group_array_axioms;

/// The row (or column) of the full matrix that row `i` of a submatrix comes
/// from, once row `removed` is taken out.
pub open spec fn skipped(i: int, removed: int) -> int {
    if i < removed { i } else { i + 1 }
}

fn skip(i: usize, removed: usize) -> (r: usize)
    requires
        i < 4,
    ensures
        r == skipped(i as int, removed as int),
{
    if i < removed { i } else { i + 1 }
}

/// A 2x2 matrix, row by row.
#[derive(Clone, Copy, Debug, PartialEq)]
pub struct Matrix2x2<T>(pub [[T; 2]; 2]);

/// A 3x3 matrix, row by row.
#[derive(Clone, Copy, Debug, PartialEq)]
pub struct Matrix3x3<T>(pub [[T; 3]; 3]);

/// A 4x4 matrix, row by row.
#[derive(Clone, Copy, Debug, PartialEq)]
pub struct Matrix4x4<T>(pub [[T; 4]; 4]);

impl<T: Copy> Matrix2x2<T> {
    /// The entry at row `i` and column `j`.
    pub open spec fn entry(&self, i: int, j: int) -> T {
        self.0[i][j]
    }

    /// The matrix whose row `i` is the first 2 entries of `rows[i]`.
    pub fn from_rows(rows: Vec<Vec<T>>) -> (r: Matrix2x2<T>)
        requires
            rows@.len() >= 2,
            forall|i: int| 0 <= i < 2 ==> (#[trigger] rows@[i])@.len() >= 2,
        ensures
            forall|i: int, j: int| 0 <= i < 2 && 0 <= j < 2 ==> #[trigger] r.entry(i, j) == rows@[i]@[j],
    {
        Matrix2x2([
            [rows[0][0], rows[0][1]],
            [rows[1][0], rows[1][1]],
        ])
    }

    /// The transpose: the entry at `(i, j)` is the argument's at `(j, i)`.
    pub fn transpose(&self) -> (r: Matrix2x2<T>)
        ensures
            forall|i: int, j: int| 0 <= i < 2 && 0 <= j < 2 ==> #[trigger] r.entry(i, j) == self.entry(j, i),
    {
        let m = self.0;
        Matrix2x2([[m[0][0], m[1][0]], [m[0][1], m[1][1]]])
    }
}

impl<T: Copy> Matrix3x3<T> {
    /// The entry at row `i` and column `j`.
    pub open spec fn entry(&self, i: int, j: int) -> T {
        self.0[i][j]
    }

    /// The matrix whose row `i` is the first 3 entries of `rows[i]`.
    pub fn from_rows(rows: Vec<Vec<T>>) -> (r: Matrix3x3<T>)
        requires
            rows@.len() >= 3,
            forall|i: int| 0 <= i < 3 ==> (#[trigger] rows@[i])@.len() >= 3,
        ensures
            forall|i: int, j: int| 0 <= i < 3 && 0 <= j < 3 ==> #[trigger] r.entry(i, j) == rows@[i]@[j],
    {
        Matrix3x3([
            [rows[0][0], rows[0][1], rows[0][2]],
            [rows[1][0], rows[1][1], rows[1][2]],
            [rows[2][0], rows[2][1], rows[2][2]],
        ])
    }

    /// The transpose: the entry at `(i, j)` is the argument's at `(j, i)`.
    pub fn transpose(&self) -> (r: Matrix3x3<T>)
        ensures
            forall|i: int, j: int| 0 <= i < 3 && 0 <= j < 3 ==> #[trigger] r.entry(i, j) == self.entry(j, i),
    {
        let m = self.0;
        Matrix3x3([
            [m[0][0], m[1][0], m[2][0]],
            [m[0][1], m[1][1], m[2][1]],
            [m[0][2], m[1][2], m[2][2]],
        ])
    }

    /// The 2x2 matrix left when row `row` and column `col` are taken out.
    pub fn submatrix(&self, row: usize, col: usize) -> (r: Matrix2x2<T>)
        requires
            row < 3,
            col < 3,
        ensures
            forall|i: int, j: int| 0 <= i < 2 && 0 <= j < 2
                ==> #[trigger] r.entry(i, j) == self.entry(skipped(i, row as int), skipped(j, col as int)),
    {
        let m = self.0;
        let (r0, r1) = (skip(0, row), skip(1, row));
        let (c0, c1) = (skip(0, col), skip(1, col));
        Matrix2x2([[m[r0][c0], m[r0][c1]], [m[r1][c0], m[r1][c1]]])
    }
}

impl<T: Copy> Matrix4x4<T> {
    /// The entry at row `i` and column `j`.
    pub open spec fn entry(&self, i: int, j: int) -> T {
        self.0[i][j]
    }

    /// The matrix whose row `i` is the first 4 entries of `rows[i]`.
    pub fn from_rows(rows: Vec<Vec<T>>) -> (r: Matrix4x4<T>)
        requires
            rows@.len() >= 4,
            forall|i: int| 0 <= i < 4 ==> (#[trigger] rows@[i])@.len() >= 4,
        ensures
            forall|i: int, j: int| 0 <= i < 4 && 0 <= j < 4 ==> #[trigger] r.entry(i, j) == rows@[i]@[j],
    {
        Matrix4x4([
            [rows[0][0], rows[0][1], rows[0][2], rows[0][3]],
            [rows[1][0], rows[1][1], rows[1][2], rows[1][3]],
            [rows[2][0], rows[2][1], rows[2][2], rows[2][3]],
            [rows[3][0], rows[3][1], rows[3][2], rows[3][3]],
        ])
    }

    /// The transpose: the entry at `(i, j)` is the argument's at `(j, i)`.
    pub fn transpose(&self) -> (r: Matrix4x4<T>)
        ensures
            forall|i: int, j: int| 0 <= i < 4 && 0 <= j < 4 ==> #[trigger] r.entry(i, j) == self.entry(j, i),
    {
        let m = self.0;
        Matrix4x4([
            [m[0][0], m[1][0], m[2][0], m[3][0]],
            [m[0][1], m[1][1], m[2][1], m[3][1]],
            [m[0][2], m[1][2], m[2][2], m[3][2]],
            [m[0][3], m[1][3], m[2][3], m[3][3]],
        ])
    }

    /// The 3x3 matrix left when row `row` and column `col` are taken out.
    pub fn submatrix(&self, row: usize, col: usize) -> (r: Matrix3x3<T>)
        requires
            row < 4,
            col < 4,
        ensures
            forall|i: int, j: int| 0 <= i < 3 && 0 <= j < 3
                ==> #[trigger] r.entry(i, j) == self.entry(skipped(i, row as int), skipped(j, col as int)),
    {
        let m = self.0;
        let (r0, r1, r2) = (skip(0, row), skip(1, row), skip(2, row));
        let (c0, c1, c2) = (skip(0, col), skip(1, col), skip(2, col));
        Matrix3x3([
            [m[r0][c0], m[r0][c1], m[r0][c2]],
            [m[r1][c0], m[r1][c1], m[r1][c2]],
            [m[r2][c0], m[r2][c1], m[r2][c2]],
        ])
    }
}

/// A matrix tagged by its side.
#[derive(Clone, Copy, Debug, PartialEq)]
pub enum Matrix<T> {
    Matrix2x2(Matrix2x2<T>),
    Matrix3x3(Matrix3x3<T>),
    Matrix4x4(Matrix4x4<T>),
}

impl<T: Copy> Matrix<T> {
    /// The side: 2, 3 or 4.
    pub open spec fn side(&self) -> int {
        match self {
            Matrix::Matrix2x2(_) => 2,
            Matrix::Matrix3x3(_) => 3,
            Matrix::Matrix4x4(_) => 4,
        }
    }

    /// The entry at row `i` and column `j`.
    pub open spec fn entry(&self, i: int, j: int) -> T
        recommends
            0 <= i < self.side(),
            0 <= j < self.side(),
    {
        match self {
            Matrix::Matrix2x2(m) => m.entry(i, j),
            Matrix::Matrix3x3(m) => m.entry(i, j),
            Matrix::Matrix4x4(m) => m.entry(i, j),
        }
    }

    /// `self` is the transpose of `m`.
    pub open spec fn is_transpose_of(&self, m: Matrix<T>) -> bool {
        &&& self.side() == m.side()
        &&& forall|i: int, j: int| 0 <= i < self.side() && 0 <= j < self.side()
                ==> #[trigger] self.entry(i, j) == m.entry(j, i)
    }

    /// `self` is `m` with row `row` and column `col` taken out.
    pub open spec fn is_submatrix_of(&self, m: Matrix<T>, row: int, col: int) -> bool {
        &&& self.side() == m.side() - 1
        &&& forall|i: int, j: int| 0 <= i < self.side() && 0 <= j < self.side()
                ==> #[trigger] self.entry(i, j) == m.entry(skipped(i, row), skipped(j, col))
    }

    /// The matrix of side `rows.len()` whose row `i` is the first entries of
    /// `rows[i]`.
    pub fn from_rows(rows: Vec<Vec<T>>) -> (r: Matrix<T>)
        requires
            2 <= rows@.len() <= 4,
            forall|i: int| 0 <= i < rows@.len() ==> (#[trigger] rows@[i])@.len() >= rows@.len(),
        ensures
            r.side() == rows@.len(),
            forall|i: int, j: int| 0 <= i < r.side() && 0 <= j < r.side()
                ==> #[trigger] r.entry(i, j) == rows@[i]@[j],
    {
        let n = rows.len();
        if n == 2 {
            Matrix::Matrix2x2(Matrix2x2::from_rows(rows))
        } else if n == 3 {
            Matrix::Matrix3x3(Matrix3x3::from_rows(rows))
        } else {
            Matrix::Matrix4x4(Matrix4x4::from_rows(rows))
        }
    }

    /// The entry at row `row` and column `col`.
    pub fn get_value(&self, row: usize, col: usize) -> (r: T)
        requires
            row < self.side(),
            col < self.side(),
        ensures
            r == self.entry(row as int, col as int),
    {
        match self {
            Matrix::Matrix2x2(m) => m.0[row][col],
            Matrix::Matrix3x3(m) => m.0[row][col],
            Matrix::Matrix4x4(m) => m.0[row][col],
        }
    }

    /// Sets the entry at row `row` and column `col` to `value`.
    pub fn set_value(&mut self, row: usize, col: usize, value: T)
        requires
            row < old(self).side(),
            col < old(self).side(),
        ensures
            final(self).side() == old(self).side(),
            forall|i: int, j: int| 0 <= i < old(self).side() && 0 <= j < old(self).side()
                ==> #[trigger] final(self).entry(i, j)
                    == if i == row && j == col { value } else { old(self).entry(i, j) },
    {
        match *self {
            Matrix::Matrix2x2(mut m) => {
                let mut line = m.0[row];
                line[col] = value;
                m.0[row] = line;
                *self = Matrix::Matrix2x2(m);
            },
            Matrix::Matrix3x3(mut m) => {
                let mut line = m.0[row];
                line[col] = value;
                m.0[row] = line;
                *self = Matrix::Matrix3x3(m);
            },
            Matrix::Matrix4x4(mut m) => {
                let mut line = m.0[row];
                line[col] = value;
                m.0[row] = line;
                *self = Matrix::Matrix4x4(m);
            },
        }
    }

    /// The transpose.
    pub fn transpose(&self) -> (r: Matrix<T>)
        ensures
            r.is_transpose_of(*self),
    {
        match self {
            Matrix::Matrix2x2(m) => Matrix::Matrix2x2(m.transpose()),
            Matrix::Matrix3x3(m) => Matrix::Matrix3x3(m.transpose()),
            Matrix::Matrix4x4(m) => Matrix::Matrix4x4(m.transpose()),
        }
    }

    /// The matrix left when row `row` and column `col` are taken out; a 2x2
    /// matrix has none.
    pub fn submatrix(&self, row: usize, col: usize) -> (r: Matrix<T>)
        requires
            self.side() >= 3,
            row < self.side(),
            col < self.side(),
        ensures
            r.is_submatrix_of(*self, row as int, col as int),
    {
        match self {
            Matrix::Matrix3x3(m) => Matrix::Matrix2x2(m.submatrix(row, col)),
            Matrix::Matrix4x4(m) => Matrix::Matrix3x3(m.submatrix(row, col)),
            Matrix::Matrix2x2(_) => {
                proof {
                    assert(false);
                }
                *self
            },
        }
    }
}

/// Transposing a matrix twice gives back the matrix.
pub proof fn lemma_transpose_twice<T: Copy>(m: Matrix<T>, t: Matrix<T>, tt: Matrix<T>)
    requires
        t.is_transpose_of(m),
        tt.is_transpose_of(t),
    ensures
        tt == m,
{
    match (tt, m) {
        (Matrix::Matrix2x2(a), Matrix::Matrix2x2(b)) => {
            assert forall|i: int| 0 <= i < 2 implies a.0[i] =~= b.0[i] by {
                assert forall|j: int| 0 <= j < 2 implies a.0[i][j] == b.0[i][j] by {
                    assert(tt.entry(i, j) == t.entry(j, i));
                }
            }
            assert(a.0 =~= b.0);
        },
        (Matrix::Matrix3x3(a), Matrix::Matrix3x3(b)) => {
            assert forall|i: int| 0 <= i < 3 implies a.0[i] =~= b.0[i] by {
                assert forall|j: int| 0 <= j < 3 implies a.0[i][j] == b.0[i][j] by {
                    assert(tt.entry(i, j) == t.entry(j, i));
                }
            }
            assert(a.0 =~= b.0);
        },
        (Matrix::Matrix4x4(a), Matrix::Matrix4x4(b)) => {
            assert forall|i: int| 0 <= i < 4 implies a.0[i] =~= b.0[i] by {
                assert forall|j: int| 0 <= j < 4 implies a.0[i][j] == b.0[i][j] by {
                    assert(tt.entry(i, j) == t.entry(j, i));
                }
            }
            assert(a.0 =~= b.0);
        },
        _ => {},
    }
}

} // verus!

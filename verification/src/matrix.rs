//! Rectangular matrices over any `Numeric` scalar, with transposition,
//! trace, a cofactor determinant, and Gauss-Jordan elimination.

use vstd::prelude::*;
use crate::scalar::Numeric;

verus! {

/// A row-major matrix.
pub struct Matrix<T> {
    data: Vec<Vec<T>>,
    rows: usize,
    cols: usize,
}

/// A row with one column taken out.
pub open spec fn row_remove_col<T>(row: Seq<T>, c: int) -> Seq<T> {
    row.subrange(0, c).add(row.subrange(c + 1, row.len() as int))
}

/// The minor: drop the first row and one column.
pub open spec fn minor_spec<T>(g: Seq<Seq<T>>, c: int) -> Seq<Seq<T>> {
    g.subrange(1, g.len() as int).map_values(|row: Seq<T>| row_remove_col(row, c))
}

/// The cofactor sign of a column: plus one on even columns.
pub open spec fn det_sign<T: Numeric>(c: int) -> T {
    if c % 2 == 0 {
        T::one_spec()
    } else {
        T::zero_spec().sub_spec(T::one_spec())
    }
}

/// The determinant by cofactor expansion along the first row; the empty
/// matrix has determinant zero, following the expansion's base case.
pub open spec fn det_spec<T: Numeric>(g: Seq<Seq<T>>) -> T
    decreases g.len(), g.len() + 1,
{
    if g.len() == 0 {
        T::zero_spec()
    } else if g.len() == 1 {
        g[0][0]
    } else {
        cofactor_sum_spec(g, g.len() as int)
    }
}

/// The partial cofactor sum over the first `c` columns.
pub open spec fn cofactor_sum_spec<T: Numeric>(g: Seq<Seq<T>>, c: int) -> T
    decreases g.len(), c,
{
    if c <= 0 || g.len() < 2 {
        T::zero_spec()
    } else {
        cofactor_sum_spec(g, c - 1).add_spec(
            det_sign::<T>(c - 1).mul_spec(g[0][c - 1]).mul_spec(
                det_spec(minor_spec(g, c - 1)),
            ),
        )
    }
}

impl<T: Numeric> Matrix<T> {
    /// The rows as sequences of scalars.
    pub closed spec fn grid(&self) -> Seq<Seq<T>> {
        self.data@.map_values(|row: Vec<T>| row@)
    }

    pub closed spec fn rows_spec(&self) -> nat {
        self.rows as nat
    }

    pub closed spec fn cols_spec(&self) -> nat {
        self.cols as nat
    }

    /// The element at a position.
    pub open spec fn at_spec(&self, i: int, j: int) -> T {
        self.grid()[i][j]
    }

    /// The stored grid is rectangular with the stated dimensions.
    pub closed spec fn wf(&self) -> bool {
        &&& self.data@.len() == self.rows
        &&& forall|i: int| 0 <= i < self.data@.len() ==> (#[trigger] self.data@[i])@.len()
            == self.cols
    }

    pub proof fn lemma_grid_dims(&self)
        requires
            self.wf(),
        ensures
            self.grid().len() == self.rows_spec(),
            forall|i: int|
                0 <= i < self.grid().len() ==> (#[trigger] self.grid()[i]).len()
                    == self.cols_spec(),
    {
    }

    /// A rows-by-cols matrix of zeros.
    pub fn new(rows: usize, cols: usize) -> (r: Self)
        ensures
            r.wf(),
            r.rows_spec() == rows,
            r.cols_spec() == cols,
            forall|i: int, j: int|
                0 <= i < rows && 0 <= j < cols ==> r.at_spec(i, j) == T::zero_spec(),
    {
        Self::filled(rows, cols, T::zero())
    }

    /// A rows-by-cols matrix with every element equal to `value`.
    fn filled(rows: usize, cols: usize, value: T) -> (r: Self)
        ensures
            r.wf(),
            r.rows_spec() == rows,
            r.cols_spec() == cols,
            forall|i: int, j: int| 0 <= i < rows && 0 <= j < cols ==> r.at_spec(i, j) == value,
    {
        let mut data: Vec<Vec<T>> = Vec::new();
        let mut i: usize = 0;
        while i < rows
            invariant
                i <= rows,
                data@.len() == i,
                forall|a: int| 0 <= a < i ==> (#[trigger] data@[a])@.len() == cols,
                forall|a: int, b: int|
                    #![trigger data@[a]@[b]]
                    0 <= a < i && 0 <= b < cols ==> data@[a]@[b] == value,
            decreases rows - i,
        {
            let mut row: Vec<T> = Vec::new();
            let mut j: usize = 0;
            while j < cols
                invariant
                    j <= cols,
                    row@.len() == j,
                    forall|b: int| 0 <= b < j ==> #[trigger] row@[b] == value,
                decreases cols - j,
            {
                row.push(value);
                j = j + 1;
            }
            data.push(row);
            i = i + 1;
        }
        Matrix { data, rows, cols }
    }

    /// Wrap a rectangular grid of rows.
    pub fn from_vec(data: Vec<Vec<T>>) -> (r: Self)
        requires
            forall|i: int, j: int|
                0 <= i < data@.len() && 0 <= j < data@.len() ==> (#[trigger] data@[i])@.len() == (
                #[trigger] data@[j])@.len(),
        ensures
            r.wf(),
            r.rows_spec() == data@.len(),
            r.grid() =~= data@.map_values(|row: Vec<T>| row@),
            data@.len() > 0 ==> r.cols_spec() == data@[0]@.len(),
            data@.len() == 0 ==> r.cols_spec() == 0,
    {
        let rows = data.len();
        let cols = if rows > 0 {
            data[0].len()
        } else {
            0
        };
        Matrix { data, rows, cols }
    }

    /// A deep copy of the rows.
    pub fn to_vec(&self) -> (r: Vec<Vec<T>>)
        requires
            self.wf(),
        ensures
            r@.map_values(|row: Vec<T>| row@) =~= self.grid(),
    {
        let mut out: Vec<Vec<T>> = Vec::new();
        let mut i: usize = 0;
        while i < self.rows
            invariant
                i <= self.rows,
                self.wf(),
                out@.len() == i,
                forall|a: int| 0 <= a < i ==> (#[trigger] out@[a])@ == self.grid()[a],
            decreases self.rows - i,
        {
            let mut row: Vec<T> = Vec::new();
            let mut j: usize = 0;
            while j < self.cols
                invariant
                    j <= self.cols,
                    self.wf(),
                    i < self.rows,
                    row@.len() == j,
                    forall|b: int| 0 <= b < j ==> #[trigger] row@[b] == self.grid()[i as int][b],
                decreases self.cols - j,
            {
                row.push(self.data[i][j]);
                j = j + 1;
            }
            out.push(row);
            proof {
                assert(out@[i as int]@ =~= self.grid()[i as int]);
            }
            i = i + 1;
        }
        out
    }

    /// The element at a position, when it is in range.
    pub fn get(&self, row: usize, col: usize) -> (r: Option<&T>)
        requires
            self.wf(),
        ensures
            row < self.rows_spec() && col < self.cols_spec() ==> r == Some(
                &self.grid()[row as int][col as int],
            ),
            !(row < self.rows_spec() && col < self.cols_spec()) ==> r is None,
    {
        if row < self.rows && col < self.cols {
            Some(&self.data[row][col])
        } else {
            None
        }
    }

    /// Store an element at a position, when it is in range.
    pub fn set(&mut self, row: usize, col: usize, value: T) -> (r: Result<(), &'static str>)
        requires
            old(self).wf(),
        ensures
            final(self).wf(),
            final(self).rows_spec() == old(self).rows_spec(),
            final(self).cols_spec() == old(self).cols_spec(),
            r is Ok <==> row < old(self).rows_spec() && col < old(self).cols_spec(),
            r is Ok ==> final(self).grid() =~= old(self).grid().update(
                row as int,
                old(self).grid()[row as int].update(col as int, value),
            ),
            r is Err ==> *final(self) == *old(self),
    {
        if row < self.rows && col < self.cols {
            self.data[row][col] = value;
            proof {
                assert(final(self).grid() =~= old(self).grid().update(
                    row as int,
                    old(self).grid()[row as int].update(col as int, value),
                ));
            }
            Ok(())
        } else {
            Err("Index out of bounds")
        }
    }

    pub fn size(&self) -> (r: (usize, usize))
        ensures
            r.0 == self.rows_spec(),
            r.1 == self.cols_spec(),
    {
        (self.rows, self.cols)
    }

    /// The transpose: element (j, i) holds what (i, j) held.
    pub fn transpose(&self) -> (r: Matrix<T>)
        requires
            self.wf(),
        ensures
            r.wf(),
            r.rows_spec() == self.cols_spec(),
            r.cols_spec() == self.rows_spec(),
            forall|i: int, j: int|
                0 <= i < self.rows_spec() && 0 <= j < self.cols_spec() ==> r.at_spec(j, i)
                    == self.at_spec(i, j),
    {
        let mut out: Vec<Vec<T>> = Vec::new();
        let mut j: usize = 0;
        while j < self.cols
            invariant
                j <= self.cols,
                self.wf(),
                out@.len() == j,
                forall|a: int| 0 <= a < j ==> (#[trigger] out@[a])@.len() == self.rows_spec(),
                forall|a: int, b: int|
                    #![trigger out@[a]@[b]]
                    0 <= a < j && 0 <= b < self.rows_spec() ==> out@[a]@[b] == self.grid()[b][a],
            decreases self.cols - j,
        {
            let mut row: Vec<T> = Vec::new();
            let mut i: usize = 0;
            while i < self.rows
                invariant
                    i <= self.rows,
                    self.wf(),
                    j < self.cols,
                    row@.len() == i,
                    forall|b: int| 0 <= b < i ==> #[trigger] row@[b] == self.grid()[b][j as int],
                decreases self.rows - i,
            {
                row.push(self.data[i][j]);
                i = i + 1;
            }
            out.push(row);
            j = j + 1;
        }
        Matrix { data: out, rows: self.cols, cols: self.rows }
    }

    /// The identity: ones on the diagonal, zeros elsewhere.
    pub fn identity(size: usize) -> (r: Matrix<T>)
        ensures
            r.wf(),
            r.rows_spec() == size,
            r.cols_spec() == size,
            forall|i: int, j: int|
                0 <= i < size && 0 <= j < size ==> r.at_spec(i, j) == (if i == j {
                    T::one_spec()
                } else {
                    T::zero_spec()
                }),
    {
        let mut m = Self::new(size, size);
        let mut i: usize = 0;
        while i < size
            invariant
                i <= size,
                m.wf(),
                m.rows_spec() == size,
                m.cols_spec() == size,
                forall|a: int, b: int|
                    #![trigger m.at_spec(a, b)]
                    0 <= a < size && 0 <= b < size && a != b ==> m.at_spec(a, b)
                        == T::zero_spec(),
                forall|a: int| 0 <= a < i ==> m.at_spec(a, a) == T::one_spec(),
                forall|a: int| i <= a < size ==> m.at_spec(a, a) == T::zero_spec(),
            decreases size - i,
        {
            let ghost before = m;
            let _ = m.set(i, i, T::one());
            proof {
                assert forall|a: int, b: int|
                    #![trigger m.at_spec(a, b)]
                    0 <= a < size && 0 <= b < size implies m.at_spec(a, b) == (if a == i && b == i {
                    T::one_spec()
                } else {
                    before.at_spec(a, b)
                }) by {
                }
            }
            i = i + 1;
        }
        m
    }

    /// The all-zero matrix.
    pub fn zero(rows: usize, cols: usize) -> (r: Matrix<T>)
        ensures
            r.wf(),
            r.rows_spec() == rows,
            r.cols_spec() == cols,
            forall|i: int, j: int|
                0 <= i < rows && 0 <= j < cols ==> r.at_spec(i, j) == T::zero_spec(),
    {
        Self::new(rows, cols)
    }

    /// The all-one matrix.
    pub fn one(rows: usize, cols: usize) -> (r: Matrix<T>)
        ensures
            r.wf(),
            r.rows_spec() == rows,
            r.cols_spec() == cols,
            forall|i: int, j: int|
                0 <= i < rows && 0 <= j < cols ==> r.at_spec(i, j) == T::one_spec(),
    {
        Self::filled(rows, cols, T::one())
    }

    pub fn is_square(&self) -> (r: bool)
        ensures
            r == (self.rows_spec() == self.cols_spec()),
    {
        self.rows == self.cols
    }

    /// Square and equal to its own transpose.
    pub fn is_symmetric(&self) -> (r: bool)
        requires
            self.wf(),
        ensures
            r == (self.rows_spec() == self.cols_spec() && forall|i: int, j: int|
                0 <= i < self.rows_spec() && 0 <= j < self.rows_spec() ==> self.at_spec(i, j)
                    == self.at_spec(j, i)),
    {
        if self.rows != self.cols {
            return false;
        }
        let n = self.rows;
        let mut i: usize = 0;
        while i < n
            invariant
                i <= n,
                self.wf(),
                n == self.rows_spec(),
                n == self.cols_spec(),
                forall|a: int, b: int|
                    0 <= a < i && 0 <= b < a ==> self.at_spec(a, b) == self.at_spec(b, a),
            decreases n - i,
        {
            let mut j: usize = 0;
            while j < i
                invariant
                    j <= i < n,
                    self.wf(),
                    n == self.rows_spec(),
                    n == self.cols_spec(),
                    forall|a: int, b: int|
                        0 <= a < i && 0 <= b < a ==> self.at_spec(a, b) == self.at_spec(b, a),
                    forall|b: int| 0 <= b < j ==> self.at_spec(i as int, b) == self.at_spec(
                        b,
                        i as int,
                    ),
                decreases i - j,
            {
                if !self.data[i][j].eq_val(&self.data[j][i]) {
                    proof {
                        if forall|a: int, b: int|
                            0 <= a < n && 0 <= b < n ==> self.at_spec(a, b) == self.at_spec(b, a) {
                            assert(self.at_spec(i as int, j as int) == self.at_spec(
                                j as int,
                                i as int,
                            ));
                        }
                    }
                    return false;
                }
                j = j + 1;
            }
            i = i + 1;
        }
        proof {
            assert forall|a: int, b: int|
                0 <= a < n && 0 <= b < n implies self.at_spec(a, b) == self.at_spec(b, a) by {
            }
        }
        true
    }

    /// The sum of the diagonal elements of a prefix.
    pub open spec fn diag_sum_spec(&self, k: int) -> T
        decreases k,
    {
        if k <= 0 {
            T::zero_spec()
        } else {
            self.diag_sum_spec(k - 1).add_spec(self.at_spec(k - 1, k - 1))
        }
    }

    /// The trace of a square matrix; `None` otherwise.
    pub fn trace(&self) -> (r: Option<T>)
        requires
            self.wf(),
        ensures
            self.rows_spec() == self.cols_spec() ==> r == Some(
                self.diag_sum_spec(self.rows_spec() as int),
            ),
            self.rows_spec() != self.cols_spec() ==> r is None,
    {
        if self.rows != self.cols {
            return None;
        }
        let mut acc = T::zero();
        let mut i: usize = 0;
        while i < self.rows
            invariant
                i <= self.rows,
                self.wf(),
                self.rows_spec() == self.cols_spec(),
                acc == self.diag_sum_spec(i as int),
            decreases self.rows - i,
        {
            acc = acc.add(self.data[i][i]);
            i = i + 1;
        }
        Some(acc)
    }

    /// The determinant of a square matrix, by cofactor expansion along the
    /// first row; `None` otherwise.
    pub fn determinant(&self) -> (r: Option<T>)
        requires
            self.wf(),
        ensures
            self.rows_spec() == self.cols_spec() ==> r == Some(det_spec(self.grid())),
            self.rows_spec() != self.cols_spec() ==> r is None,
        decreases self.rows_spec(),
    {
        if self.rows != self.cols {
            return None;
        }
        let n = self.rows;
        if n == 0 {
            return Some(T::zero());
        }
        if n == 1 {
            return Some(self.data[0][0]);
        }
        let mut det = T::zero();
        let mut c: usize = 0;
        while c < n
            invariant
                c <= n,
                self.wf(),
                n == self.rows_spec(),
                n == self.cols_spec(),
                n >= 2,
                det == cofactor_sum_spec(self.grid(), c as int),
            decreases n - c,
        {
            let mut submatrix_data: Vec<Vec<T>> = Vec::new();
            let mut r: usize = 1;
            while r < n
                invariant
                    1 <= r <= n,
                    self.wf(),
                    n == self.rows_spec(),
                    n == self.cols_spec(),
                    c < n,
                    submatrix_data@.len() == r - 1,
                    forall|a: int|
                        0 <= a < r - 1 ==> (#[trigger] submatrix_data@[a])@ =~= row_remove_col(
                            self.grid()[a + 1],
                            c as int,
                        ),
                decreases n - r,
            {
                let mut row_data: Vec<T> = Vec::new();
                let mut cc: usize = 0;
                while cc < n
                    invariant
                        cc <= n,
                        self.wf(),
                        n == self.rows_spec(),
                        n == self.cols_spec(),
                        c < n,
                        1 <= r < n,
                        cc <= c ==> row_data@ =~= self.grid()[r as int].subrange(0, cc as int),
                        cc > c ==> row_data@ =~= self.grid()[r as int].subrange(0, c as int).add(
                            self.grid()[r as int].subrange(c + 1, cc as int),
                        ),
                    decreases n - cc,
                {
                    if cc != c {
                        row_data.push(self.data[r][cc]);
                    }
                    cc = cc + 1;
                }
                proof {
                    assert(row_data@ =~= row_remove_col(self.grid()[r as int], c as int));
                }
                submatrix_data.push(row_data);
                r = r + 1;
            }
            let submatrix = Matrix::from_vec(submatrix_data);
            proof {
                assert(submatrix.grid() =~= minor_spec(self.grid(), c as int));
            }
            let sub_det_opt = submatrix.determinant();
            let sub_det = sub_det_opt.unwrap();
            let sign = if c % 2 == 0 {
                T::one()
            } else {
                T::zero().sub(T::one())
            };
            det = det.add(sign.mul(self.data[0][c]).mul(sub_det));
            c = c + 1;
        }
        Some(det)
    }

    /// Whether the determinant of a square matrix is zero.
    pub fn is_singular(&self) -> (r: Option<bool>)
        requires
            self.wf(),
        ensures
            self.rows_spec() == self.cols_spec() ==> r == Some(
                det_spec(self.grid()) == T::zero_spec(),
            ),
            self.rows_spec() != self.cols_spec() ==> r is None,
    {
        match self.determinant() {
            Some(det) => Some(det.eq_val(&T::zero())),
            None => None,
        }
    }

    /// Gauss-Jordan elimination over the scalar ring: `None` for a matrix
    /// that is not square or whose elimination meets a zero pivot. The
    /// scalar's division is not exact in general, so only the shape of the
    /// result is promised.
    pub fn inverse(&self) -> (r: Option<Matrix<T>>)
        requires
            self.wf(),
        ensures
            self.rows_spec() != self.cols_spec() ==> r is None,
            r matches Some(m) ==> m.wf() && m.rows_spec() == self.rows_spec() && m.cols_spec()
                == self.cols_spec(),
    {
        if self.rows != self.cols {
            return None;
        }
        let n = self.rows;
        if n > usize::MAX / 2 {
            return None;
        }
        let mut aug = Matrix::new(n, 2 * n);
        let mut i: usize = 0;
        while i < n
            invariant
                i <= n,
                aug.wf(),
                aug.rows_spec() == n,
                aug.cols_spec() == 2 * n,
                self.wf(),
                n == self.rows_spec(),
                n == self.cols_spec(),
            decreases n - i,
        {
            let mut j: usize = 0;
            while j < n
                invariant
                    j <= n,
                    i < n,
                    aug.wf(),
                    aug.rows_spec() == n,
                    aug.cols_spec() == 2 * n,
                    self.wf(),
                    n == self.rows_spec(),
                    n == self.cols_spec(),
                decreases n - j,
            {
                let v = self.data[i][j];
                let _ = aug.set(i, j, v);
                j = j + 1;
            }
            let _ = aug.set(i, i + n, T::one());
            i = i + 1;
        }
        let mut i: usize = 0;
        while i < n
            invariant
                i <= n,
                aug.wf(),
                aug.rows_spec() == n,
                aug.cols_spec() == 2 * n,
            decreases n - i,
        {
            let pivot = *aug.get(i, i).unwrap();
            if pivot.eq_val(&T::zero()) {
                return None;
            }
            let mut j: usize = 0;
            while j < 2 * n
                invariant
                    j <= 2 * n,
                    i < n,
                    aug.wf(),
                    aug.rows_spec() == n,
                    aug.cols_spec() == 2 * n,
                decreases 2 * n - j,
            {
                let v = *aug.get(i, j).unwrap();
                let _ = aug.set(i, j, v.div(pivot));
                j = j + 1;
            }
            let mut k: usize = 0;
            while k < n
                invariant
                    k <= n,
                    i < n,
                    aug.wf(),
                    aug.rows_spec() == n,
                    aug.cols_spec() == 2 * n,
                decreases n - k,
            {
                if k != i {
                    let factor = *aug.get(k, i).unwrap();
                    let mut j: usize = 0;
                    while j < 2 * n
                        invariant
                            j <= 2 * n,
                            i < n,
                            k < n,
                            aug.wf(),
                            aug.rows_spec() == n,
                            aug.cols_spec() == 2 * n,
                        decreases 2 * n - j,
                    {
                        let cur = *aug.get(k, j).unwrap();
                        let base = *aug.get(i, j).unwrap();
                        let _ = aug.set(k, j, cur.sub(factor.mul(base)));
                        j = j + 1;
                    }
                }
                k = k + 1;
            }
            i = i + 1;
        }
        let mut out = Matrix::new(n, n);
        let mut i: usize = 0;
        while i < n
            invariant
                i <= n,
                out.wf(),
                out.rows_spec() == n,
                out.cols_spec() == n,
                aug.wf(),
                aug.rows_spec() == n,
                aug.cols_spec() == 2 * n,
            decreases n - i,
        {
            let mut j: usize = 0;
            while j < n
                invariant
                    j <= n,
                    i < n,
                    out.wf(),
                    out.rows_spec() == n,
                    out.cols_spec() == n,
                    aug.wf(),
                    aug.rows_spec() == n,
                    aug.cols_spec() == 2 * n,
                decreases n - j,
            {
                let v = *aug.get(i, j + n).unwrap();
                let _ = out.set(i, j, v);
                j = j + 1;
            }
            i = i + 1;
        }
        Some(out)
    }
}

/// One entry of a matrix product: the running sum of the first `k` terms.
pub open spec fn mul_entry_spec<T: Numeric>(
    a: Seq<Seq<T>>,
    b: Seq<Seq<T>>,
    i: int,
    j: int,
    k: int,
) -> T
    decreases k,
{
    if k <= 0 {
        T::zero_spec()
    } else {
        mul_entry_spec(a, b, i, j, k - 1).add_spec(a[i][k - 1].mul_spec(b[k - 1][j]))
    }
}

impl<T: Numeric> Matrix<T> {
    /// Element-wise sum; the dimensions must agree.
    pub fn add(&self, other: &Matrix<T>) -> (r: Matrix<T>)
        requires
            self.wf(),
            other.wf(),
            self.rows_spec() == other.rows_spec(),
            self.cols_spec() == other.cols_spec(),
        ensures
            r.wf(),
            r.rows_spec() == self.rows_spec(),
            r.cols_spec() == self.cols_spec(),
            forall|i: int, j: int|
                0 <= i < self.rows_spec() && 0 <= j < self.cols_spec() ==> r.at_spec(i, j)
                    == self.at_spec(i, j).add_spec(other.at_spec(i, j)),
    {
        let mut data: Vec<Vec<T>> = Vec::new();
        let mut i: usize = 0;
        while i < self.rows
            invariant
                i <= self.rows,
                self.wf(),
                other.wf(),
                self.rows_spec() == other.rows_spec(),
                self.cols_spec() == other.cols_spec(),
                data@.len() == i,
                forall|a: int| 0 <= a < i ==> (#[trigger] data@[a])@.len() == self.cols_spec(),
                forall|a: int, b: int|
                    #![trigger data@[a]@[b]]
                    0 <= a < i && 0 <= b < self.cols_spec() ==> data@[a]@[b] == self.at_spec(
                        a,
                        b,
                    ).add_spec(other.at_spec(a, b)),
            decreases self.rows - i,
        {
            let mut row: Vec<T> = Vec::new();
            let mut j: usize = 0;
            while j < self.cols
                invariant
                    j <= self.cols,
                    i < self.rows,
                    self.wf(),
                    other.wf(),
                    self.rows_spec() == other.rows_spec(),
                    self.cols_spec() == other.cols_spec(),
                    row@.len() == j,
                    forall|b: int|
                        0 <= b < j ==> #[trigger] row@[b] == self.at_spec(i as int, b).add_spec(
                            other.at_spec(i as int, b),
                        ),
                decreases self.cols - j,
            {
                row.push(self.data[i][j].add(other.data[i][j]));
                j = j + 1;
            }
            data.push(row);
            i = i + 1;
        }
        Matrix { data, rows: self.rows, cols: self.cols }
    }

    /// Element-wise difference; the dimensions must agree.
    pub fn sub(&self, other: &Matrix<T>) -> (r: Matrix<T>)
        requires
            self.wf(),
            other.wf(),
            self.rows_spec() == other.rows_spec(),
            self.cols_spec() == other.cols_spec(),
        ensures
            r.wf(),
            r.rows_spec() == self.rows_spec(),
            r.cols_spec() == self.cols_spec(),
            forall|i: int, j: int|
                0 <= i < self.rows_spec() && 0 <= j < self.cols_spec() ==> r.at_spec(i, j)
                    == self.at_spec(i, j).sub_spec(other.at_spec(i, j)),
    {
        let mut data: Vec<Vec<T>> = Vec::new();
        let mut i: usize = 0;
        while i < self.rows
            invariant
                i <= self.rows,
                self.wf(),
                other.wf(),
                self.rows_spec() == other.rows_spec(),
                self.cols_spec() == other.cols_spec(),
                data@.len() == i,
                forall|a: int| 0 <= a < i ==> (#[trigger] data@[a])@.len() == self.cols_spec(),
                forall|a: int, b: int|
                    #![trigger data@[a]@[b]]
                    0 <= a < i && 0 <= b < self.cols_spec() ==> data@[a]@[b] == self.at_spec(
                        a,
                        b,
                    ).sub_spec(other.at_spec(a, b)),
            decreases self.rows - i,
        {
            let mut row: Vec<T> = Vec::new();
            let mut j: usize = 0;
            while j < self.cols
                invariant
                    j <= self.cols,
                    i < self.rows,
                    self.wf(),
                    other.wf(),
                    self.rows_spec() == other.rows_spec(),
                    self.cols_spec() == other.cols_spec(),
                    row@.len() == j,
                    forall|b: int|
                        0 <= b < j ==> #[trigger] row@[b] == self.at_spec(i as int, b).sub_spec(
                            other.at_spec(i as int, b),
                        ),
                decreases self.cols - j,
            {
                row.push(self.data[i][j].sub(other.data[i][j]));
                j = j + 1;
            }
            data.push(row);
            i = i + 1;
        }
        Matrix { data, rows: self.rows, cols: self.cols }
    }

    /// The matrix product; the inner dimensions must agree.
    pub fn mul(&self, other: &Matrix<T>) -> (r: Matrix<T>)
        requires
            self.wf(),
            other.wf(),
            self.cols_spec() == other.rows_spec(),
        ensures
            r.wf(),
            r.rows_spec() == self.rows_spec(),
            r.cols_spec() == other.cols_spec(),
            forall|i: int, j: int|
                0 <= i < self.rows_spec() && 0 <= j < other.cols_spec() ==> r.at_spec(i, j)
                    == mul_entry_spec(
                    self.grid(),
                    other.grid(),
                    i,
                    j,
                    self.cols_spec() as int,
                ),
    {
        let mut data: Vec<Vec<T>> = Vec::new();
        let mut i: usize = 0;
        while i < self.rows
            invariant
                i <= self.rows,
                self.wf(),
                other.wf(),
                self.cols_spec() == other.rows_spec(),
                data@.len() == i,
                forall|a: int| 0 <= a < i ==> (#[trigger] data@[a])@.len() == other.cols_spec(),
                forall|a: int, b: int|
                    #![trigger data@[a]@[b]]
                    0 <= a < i && 0 <= b < other.cols_spec() ==> data@[a]@[b] == mul_entry_spec(
                        self.grid(),
                        other.grid(),
                        a,
                        b,
                        self.cols_spec() as int,
                    ),
            decreases self.rows - i,
        {
            let mut row: Vec<T> = Vec::new();
            let mut j: usize = 0;
            while j < other.cols
                invariant
                    j <= other.cols,
                    i < self.rows,
                    self.wf(),
                    other.wf(),
                    self.cols_spec() == other.rows_spec(),
                    row@.len() == j,
                    forall|b: int|
                        0 <= b < j ==> #[trigger] row@[b] == mul_entry_spec(
                            self.grid(),
                            other.grid(),
                            i as int,
                            b,
                            self.cols_spec() as int,
                        ),
                decreases other.cols - j,
            {
                let mut acc = T::zero();
                let mut k: usize = 0;
                while k < self.cols
                    invariant
                        k <= self.cols,
                        i < self.rows,
                        j < other.cols,
                        self.wf(),
                        other.wf(),
                        self.cols_spec() == other.rows_spec(),
                        acc == mul_entry_spec(
                            self.grid(),
                            other.grid(),
                            i as int,
                            j as int,
                            k as int,
                        ),
                    decreases self.cols - k,
                {
                    acc = acc.add(self.data[i][k].mul(other.data[k][j]));
                    k = k + 1;
                }
                row.push(acc);
                j = j + 1;
            }
            data.push(row);
            i = i + 1;
        }
        Matrix { data, rows: self.rows, cols: other.cols }
    }

    /// Multiply by the other matrix's Gauss-Jordan inverse; `None` when
    /// that inverse does not exist. Only the shape is promised, as for
    /// `inverse`.
    pub fn div(&self, other: &Matrix<T>) -> (r: Option<Matrix<T>>)
        requires
            self.wf(),
            other.wf(),
            self.cols_spec() == other.rows_spec(),
        ensures
            r matches Some(m) ==> m.wf() && m.rows_spec() == self.rows_spec() && m.cols_spec()
                == other.cols_spec(),
    {
        match other.inverse() {
            Some(other_inverse) => Some(self.mul(&other_inverse)),
            None => None,
        }
    }
}

} // verus!

use vstd::prelude::*;

use crate::scalar::{Scalar, ONE_BITS, ZERO_BITS};

verus! {

/// The axis of a rotation.
#[derive(Clone, Copy, Debug, PartialEq, Eq, Structural)]
pub enum Axis {
    X,
    Y,
    Z,
}

/// `m` with the entry at row `r`, column `c` replaced by `v`.
pub open spec fn with_entry(m: Seq<Seq<Scalar>>, r: int, c: int, v: Scalar) -> Seq<Seq<Scalar>> {
    m.update(r, m[r].update(c, v))
}

/// A `rows × cols` grid whose entries are all `v`.
pub open spec fn filled(rows: nat, cols: nat, v: Scalar) -> Seq<Seq<Scalar>> {
    Seq::new(rows, |r: int| Seq::new(cols, |c: int| v))
}

/// The `n × n` identity.
pub open spec fn identity(n: nat) -> Seq<Seq<Scalar>> {
    Seq::new(
        n,
        |r: int| Seq::new(n, |c: int| if r == c { Scalar(ONE_BITS) } else { Scalar(ZERO_BITS) }),
    )
}

/// The `cols × rows` grid whose entry `(c, r)` is the entry `(r, c)` of `m`.
pub open spec fn transposed(m: Seq<Seq<Scalar>>, cols: nat) -> Seq<Seq<Scalar>> {
    Seq::new(cols, |c: int| Seq::new(m.len(), |r: int| m[r][c]))
}

/// The index that a kept position has in the grid before `skip` was removed.
pub open spec fn source_index(i: int, skip: int) -> int {
    if i < skip {
        i
    } else {
        i + 1
    }
}

/// `m` without row `row` and column `column`.
pub open spec fn without(m: Seq<Seq<Scalar>>, cols: nat, row: int, column: int) -> Seq<Seq<Scalar>> {
    Seq::new(
        (m.len() - 1) as nat,
        |r: int|
            Seq::new(
                (cols - 1) as nat,
                |c: int| m[source_index(r, row)][source_index(c, column)],
            ),
    )
}

/// The 4×4 translation by `(x, y, z)`.
pub open spec fn translation(x: Scalar, y: Scalar, z: Scalar) -> Seq<Seq<Scalar>> {
    with_entry(with_entry(with_entry(identity(4), 0, 3, x), 1, 3, y), 2, 3, z)
}

/// The 4×4 scaling by `(x, y, z)`.
pub open spec fn scaling(x: Scalar, y: Scalar, z: Scalar) -> Seq<Seq<Scalar>> {
    with_entry(with_entry(with_entry(identity(4), 0, 0, x), 1, 1, y), 2, 2, z)
}

/// The 4×4 shearing that moves x by `xpy`·y and `xpz`·z, y by `ypx`·x and
/// `ypz`·z, and z by `zpx`·x and `zpy`·y.
pub open spec fn shearing(
    xpy: Scalar,
    xpz: Scalar,
    ypx: Scalar,
    ypz: Scalar,
    zpx: Scalar,
    zpy: Scalar,
) -> Seq<Seq<Scalar>> {
    let m = with_entry(with_entry(identity(4), 0, 1, xpy), 0, 2, xpz);
    let m = with_entry(with_entry(m, 1, 0, ypx), 1, 2, ypz);
    with_entry(with_entry(m, 2, 0, zpx), 2, 1, zpy)
}

/// The right-handed 4×4 rotation about `axis` by the angle whose cosine and
/// sine are `cos` and `sin`.
pub open spec fn rotation(axis: Axis, cos: Scalar, sin: Scalar) -> Seq<Seq<Scalar>> {
    let (a, b) = match axis {
        Axis::X => (1int, 2int),
        Axis::Y => (2int, 0int),
        Axis::Z => (0int, 1int),
    };
    let m = with_entry(with_entry(identity(4), a, a, cos), a, b, sin.spec_neg());
    with_entry(with_entry(m, b, a, sin), b, b, cos)
}

/// `m` is a well-formed 4×4 matrix, the shape of an affine transformation.
pub open spec fn is_transform(m: Matrix) -> bool {
    m.wf() && m@.len() == 4 && m.spec_cols() == 4
}

/// A grid of scalars with a fixed number of rows and columns.
#[derive(Clone, Debug, PartialEq)]
pub struct Matrix {
    rows: Vec<Vec<Scalar>>,
    cols: usize,
}

impl View for Matrix {
    type V = Seq<Seq<Scalar>>;

    closed spec fn view(&self) -> Seq<Seq<Scalar>> {
        self.rows@.map_values(|row: Vec<Scalar>| row@)
    }
}

impl Matrix {
    /// The number of columns, which a matrix without rows also has.
    pub closed spec fn spec_cols(&self) -> nat {
        self.cols as nat
    }

    /// Every row has `spec_cols()` entries.
    pub open spec fn wf(&self) -> bool {
        forall|r: int| 0 <= r < self@.len() ==> #[trigger] self@[r].len() == self.spec_cols()
    }

    pub fn num_rows(&self) -> (r: usize)
        ensures
            r == self@.len(),
    {
        self.rows.len()
    }

    pub fn num_cols(&self) -> (r: usize)
        ensures
            r == self.spec_cols(),
    {
        self.cols
    }

    /// The matrix with the given rows; `None` when they differ in length.
    pub fn from_rows(rows: Vec<Vec<Scalar>>) -> (r: Option<Matrix>)
        ensures
            r is Some <==> forall|i: int| 0 <= i < rows@.len() ==> #[trigger] rows@[i]@.len() == rows@[0]@.len(),
            r matches Some(m) ==> {
                &&& m.wf()
                &&& m@ == rows@.map_values(|row: Vec<Scalar>| row@)
                &&& m.spec_cols() == if rows@.len() == 0 { 0 } else { rows@[0]@.len() }
            },
    {
        let cols: usize = if rows.len() == 0 { 0 } else { rows[0].len() };
        let mut i: usize = 0;
        while i < rows.len()
            invariant
                i <= rows@.len(),
                rows@.len() > 0 ==> cols == rows@[0]@.len(),
                forall|k: int| 0 <= k < i ==> #[trigger] rows@[k]@.len() == cols,
            decreases rows@.len() - i,
        {
            if rows[i].len() != cols {
                return None;
            }
            i += 1;
        }
        let m = Matrix { rows, cols };
        assert(m.wf()) by {
            assert forall|r: int| 0 <= r < m@.len() implies #[trigger] m@[r].len() == m.spec_cols() by {
                assert(m@[r] == m.rows@[r]@);
            }
        }
        Some(m)
    }

    /// A `rows × cols` matrix of zeros.
    pub fn zero(rows: usize, cols: usize) -> (r: Matrix)
        ensures
            r.wf(),
            r.spec_cols() == cols,
            r@ == filled(rows as nat, cols as nat, Scalar(ZERO_BITS)),
    {
        let mut grid: Vec<Vec<Scalar>> = Vec::new();
        let mut i: usize = 0;
        while i < rows
            invariant
                i <= rows,
                grid@.len() == i,
                forall|k: int| 0 <= k < i ==> #[trigger] grid@[k]@ == Seq::new(cols as nat, |c: int| Scalar(ZERO_BITS)),
            decreases rows - i,
        {
            let mut row: Vec<Scalar> = Vec::new();
            let mut j: usize = 0;
            while j < cols
                invariant
                    j <= cols,
                    row@ == Seq::new(j as nat, |c: int| Scalar(ZERO_BITS)),
                decreases cols - j,
            {
                row.push(Scalar::zero());
                j += 1;
                assert(row@ =~= Seq::new(j as nat, |c: int| Scalar(ZERO_BITS)));
            }
            grid.push(row);
            i += 1;
        }
        let m = Matrix { rows: grid, cols };
        assert(m@ =~= filled(rows as nat, cols as nat, Scalar(ZERO_BITS)));
        m
    }

    /// The `size × size` identity.
    pub fn identity_matrix(size: usize) -> (r: Matrix)
        ensures
            r.wf(),
            r.spec_cols() == size,
            r@ == identity(size as nat),
    {
        let mut grid: Vec<Vec<Scalar>> = Vec::new();
        let mut i: usize = 0;
        while i < size
            invariant
                i <= size,
                grid@.len() == i,
                forall|k: int| 0 <= k < i ==> #[trigger] grid@[k]@ == identity(size as nat)[k],
            decreases size - i,
        {
            let mut row: Vec<Scalar> = Vec::new();
            let mut j: usize = 0;
            while j < size
                invariant
                    j <= size,
                    i < size,
                    row@ == identity(size as nat)[i as int].subrange(0, j as int),
                decreases size - j,
            {
                if i == j {
                    row.push(Scalar::one());
                } else {
                    row.push(Scalar::zero());
                }
                j += 1;
                assert(row@ =~= identity(size as nat)[i as int].subrange(0, j as int));
            }
            assert(row@ =~= identity(size as nat)[i as int]);
            grid.push(row);
            i += 1;
        }
        let m = Matrix { rows: grid, cols: size };
        assert(m@ =~= identity(size as nat));
        m
    }

    /// The entry at row `row`, column `column`.
    pub fn get(&self, row: usize, column: usize) -> (r: Scalar)
        requires
            self.wf(),
            row < self@.len(),
            column < self.spec_cols(),
        ensures
            r == self@[row as int][column as int],
    {
        assert(self@[row as int] == self.rows@[row as int]@);
        self.rows[row][column]
    }

    /// Replaces the entry at row `row`, column `column`.
    pub fn set(&mut self, row: usize, column: usize, value: Scalar)
        requires
            old(self).wf(),
            row < old(self)@.len(),
            column < old(self).spec_cols(),
        ensures
            final(self).wf(),
            final(self).spec_cols() == old(self).spec_cols(),
            final(self)@ == with_entry(old(self)@, row as int, column as int, value),
    {
        assert(self@[row as int] == self.rows@[row as int]@);
        let mut line = self.rows.remove(row);
        line.set(column, value);
        self.rows.insert(row, line);
        assert(self@ =~= with_entry(old(self)@, row as int, column as int, value));
    }

    /// The matrix whose rows are the columns of `self`.
    pub fn transpose(&self) -> (r: Matrix)
        requires
            self.wf(),
        ensures
            r.wf(),
            r.spec_cols() == self@.len(),
            r@ == transposed(self@, self.spec_cols()),
    {
        let mut grid: Vec<Vec<Scalar>> = Vec::new();
        let mut c: usize = 0;
        while c < self.cols
            invariant
                self.wf(),
                c <= self.cols,
                grid@.len() == c,
                forall|k: int| 0 <= k < c ==> #[trigger] grid@[k]@ == transposed(self@, self.spec_cols())[k],
            decreases self.cols - c,
        {
            let mut line: Vec<Scalar> = Vec::new();
            let mut r: usize = 0;
            while r < self.rows.len()
                invariant
                    self.wf(),
                    c < self.cols,
                    r <= self.rows@.len(),
                    line@ == transposed(self@, self.spec_cols())[c as int].subrange(0, r as int),
                decreases self.rows@.len() - r,
            {
                line.push(self.get(r, c));
                r += 1;
                assert(line@ =~= transposed(self@, self.spec_cols())[c as int].subrange(0, r as int));
            }
            assert(line@ =~= transposed(self@, self.spec_cols())[c as int]);
            grid.push(line);
            c += 1;
        }
        let m = Matrix { rows: grid, cols: self.rows.len() };
        assert(m@ =~= transposed(self@, self.spec_cols()));
        m
    }

    /// The matrix left when row `row` and column `column` are taken out.
    pub fn submatrix(&self, row: usize, column: usize) -> (r: Matrix)
        requires
            self.wf(),
            row < self@.len(),
            column < self.spec_cols(),
        ensures
            r.wf(),
            r.spec_cols() == self.spec_cols() - 1,
            r@ == without(self@, self.spec_cols(), row as int, column as int),
    {
        let ghost target = without(self@, self.spec_cols(), row as int, column as int);
        let mut grid: Vec<Vec<Scalar>> = Vec::new();
        let mut rskip: usize = 0;
        let mut r: usize = 0;
        while r < self.rows.len()
            invariant
                self.wf(),
                row < self@.len(),
                column < self.spec_cols(),
                r <= self.rows@.len(),
                target == without(self@, self.spec_cols(), row as int, column as int),
                rskip == (if r > row { 1usize } else { 0usize }),
                grid@.len() == r - rskip,
                forall|k: int| 0 <= k < grid@.len() ==> #[trigger] grid@[k]@ == target[k],
            decreases self.rows@.len() - r,
        {
            if r == row {
                rskip = 1;
            } else {
                let mut line: Vec<Scalar> = Vec::new();
                let mut cskip: usize = 0;
                let mut c: usize = 0;
                while c < self.cols
                    invariant
                        self.wf(),
                        r < self.rows@.len(),
                        r != row,
                        row < self@.len(),
                        target == without(self@, self.spec_cols(), row as int, column as int),
                        rskip == (if r > row { 1usize } else { 0usize }),
                        column < self.spec_cols(),
                        c <= self.cols,
                        cskip == (if c > column { 1usize } else { 0usize }),
                        line@ == target[r - rskip].subrange(0, c - cskip),
                    decreases self.cols - c,
                {
                    if c == column {
                        cskip = 1;
                    } else {
                        assert(source_index(r - rskip, row as int) == r);
                        assert(source_index(c - cskip, column as int) == c);
                        assert(target[r - rskip].len() == self.spec_cols() - 1);
                        assert(target[r - rskip][c - cskip] == self@[r as int][c as int]);
                        line.push(self.get(r, c));
                    }
                    c += 1;
                    assert(line@ =~= target[r - rskip].subrange(0, c - cskip));
                }
                assert(line@ =~= target[r - rskip]);
                grid.push(line);
            }
            r += 1;
        }
        let m = Matrix { rows: grid, cols: (self.cols - 1) as usize };
        assert(m@ =~= target);
        m
    }

    /// The translation by `(x, y, z)`.
    pub fn translation_matrix(x: Scalar, y: Scalar, z: Scalar) -> (r: Matrix)
        ensures
            r.wf(),
            r.spec_cols() == 4,
            r@ == translation(x, y, z),
    {
        let mut m = Matrix::identity_matrix(4);
        m.set(0, 3, x);
        m.set(1, 3, y);
        m.set(2, 3, z);
        m
    }

    /// The scaling by `(x, y, z)`.
    pub fn scaling_matrix(x: Scalar, y: Scalar, z: Scalar) -> (r: Matrix)
        ensures
            r.wf(),
            r.spec_cols() == 4,
            r@ == scaling(x, y, z),
    {
        let mut m = Matrix::identity_matrix(4);
        m.set(0, 0, x);
        m.set(1, 1, y);
        m.set(2, 2, z);
        m
    }

    /// The rotation about `axis` by the angle whose cosine is `cos` and whose
    /// sine is `sin`.
    pub fn rotation_matrix(axis: Axis, cos: Scalar, sin: Scalar) -> (r: Matrix)
        ensures
            r.wf(),
            r.spec_cols() == 4,
            r@ == rotation(axis, cos, sin),
    {
        let (a, b): (usize, usize) = match axis {
            Axis::X => (1, 2),
            Axis::Y => (2, 0),
            Axis::Z => (0, 1),
        };
        let mut m = Matrix::identity_matrix(4);
        m.set(a, a, cos);
        m.set(a, b, sin.neg());
        m.set(b, a, sin);
        m.set(b, b, cos);
        m
    }

    /// The shearing in which x moves in proportion `xpy` to y and `xpz` to z,
    /// y in proportion `ypx` to x and `ypz` to z, z in proportion `zpx` to x
    /// and `zpy` to y.
    pub fn shearing_matrix(
        xpy: Scalar,
        xpz: Scalar,
        ypx: Scalar,
        ypz: Scalar,
        zpx: Scalar,
        zpy: Scalar,
    ) -> (r: Matrix)
        ensures
            r.wf(),
            r.spec_cols() == 4,
            r@ == shearing(xpy, xpz, ypx, ypz, zpx, zpy),
    {
        let mut m = Matrix::identity_matrix(4);
        m.set(0, 1, xpy);
        m.set(0, 2, xpz);
        m.set(1, 0, ypx);
        m.set(1, 2, ypz);
        m.set(2, 0, zpx);
        m.set(2, 1, zpy);
        m
    }
}

} // verus!

use vstd::prelude::*;

verus! {

/// A square matrix of any scalar, stored row by row.
///
/// The matrix is `n` by `n` for the `n` it was built with; `m[row][col]` is
/// the entry in row `row` and column `col`.
#[derive(Clone, Debug, PartialEq)]
pub struct Matrix<T> {
    rows: Vec<Vec<T>>,
}

/// Every row of `s` is as long as `s` has rows.
pub open spec fn is_square<T>(s: Seq<Seq<T>>) -> bool {
    forall|i: int| 0 <= i < s.len() ==> #[trigger] s[i].len() == s.len()
}

/// The index in the larger matrix of index `i` of a submatrix from which
/// index `removed` was taken out.
pub open spec fn kept_index(i: int, removed: int) -> int {
    if i < removed {
        i
    } else {
        i + 1
    }
}

/// `s` without row `row` and column `col`; the other rows and columns keep
/// their order.
pub open spec fn submatrix_of<T>(s: Seq<Seq<T>>, row: int, col: int) -> Seq<Seq<T>> {
    Seq::new(
        (s.len() - 1) as nat,
        |i: int|
            Seq::new((s.len() - 1) as nat, |j: int| s[kept_index(i, row)][kept_index(j, col)]),
    )
}

/// `s` with rows and columns swapped.
pub open spec fn transpose_of<T>(s: Seq<Seq<T>>) -> Seq<Seq<T>> {
    Seq::new(s.len(), |i: int| Seq::new(s.len(), |j: int| s[j][i]))
}

/// The `n` by `n` identity: `one` on the diagonal, `zero` elsewhere.
pub open spec fn identity_of<T>(n: nat, zero: T, one: T) -> Seq<Seq<T>> {
    Seq::new(n, |i: int| Seq::new(n, |j: int| if i == j { one } else { zero }))
}

/// The 4 by 4 translation by `(x, y, z)`: the identity with the first three
/// entries of the last column set to `x`, `y` and `z`.
pub open spec fn translation_of<T>(zero: T, one: T, x: T, y: T, z: T) -> Seq<Seq<T>> {
    let id = identity_of(4, zero, one);
    id.update(0, id[0].update(3, x)).update(1, id[1].update(3, y)).update(2, id[2].update(3, z))
}

/// Whether the cofactor at `(row, col)` is the negated minor: the sign
/// follows a checkerboard that starts positive at `(0, 0)`.
pub open spec fn negated_cofactor(row: int, col: int) -> bool {
    (row + col) % 2 == 1
}

/// Whether the cofactor at `(row, col)` is the negated minor rather than the
/// minor itself.
pub fn cofactor_negated(row: usize, col: usize) -> (r: bool)
    ensures
        r == negated_cofactor(row as int, col as int),
{
    row % 2 != col % 2
}

/// Transposing the identity gives the identity back.
pub proof fn lemma_transpose_identity<T>(n: nat, zero: T, one: T)
    ensures
        transpose_of(identity_of(n, zero, one)) == identity_of(n, zero, one),
{
    let id = identity_of(n, zero, one);
    assert forall|i: int| 0 <= i < n implies #[trigger] transpose_of(id)[i] == id[i] by {
        assert(transpose_of(id)[i] =~= id[i]);
    }
    assert(transpose_of(id) =~= id);
}

/// Transposing twice gives the matrix back.
pub proof fn lemma_transpose_involution<T>(s: Seq<Seq<T>>)
    requires
        is_square(s),
    ensures
        transpose_of(transpose_of(s)) == s,
{
    let t = transpose_of(transpose_of(s));
    assert forall|i: int| 0 <= i < s.len() implies #[trigger] t[i] == s[i] by {
        assert(t[i] =~= s[i]);
    }
    assert(t =~= s);
}

impl<T> View for Matrix<T> {
    type V = Seq<Seq<T>>;

    closed spec fn view(&self) -> Seq<Seq<T>> {
        self.rows@.map_values(|r: Vec<T>| r@)
    }
}

impl<T: Copy> Matrix<T> {
    /// The matrix is square.
    pub open spec fn wf(&self) -> bool {
        is_square(self@)
    }

    /// Builds a matrix from its rows; `None` when the rows do not form a
    /// square.
    pub fn from_rows(rows: Vec<Vec<T>>) -> (r: Option<Matrix<T>>)
        ensures
            r.is_some() <==> is_square(rows@.map_values(|v: Vec<T>| v@)),
            r matches Some(m) ==> m@ == rows@.map_values(|v: Vec<T>| v@) && m.wf(),
    {
        let n = rows.len();
        let mut i: usize = 0;
        while i < n
            invariant
                n == rows@.len(),
                0 <= i <= n,
                forall|a: int| 0 <= a < i ==> #[trigger] rows@[a]@.len() == n,
            decreases n - i,
        {
            if rows[i].len() != n {
                proof {
                    let s = rows@.map_values(|v: Vec<T>| v@);
                    assert(s[i as int].len() != s.len());
                }
                return None;
            }
            i += 1;
        }
        let m = Matrix { rows };
        proof {
            assert forall|a: int| 0 <= a < m@.len() implies #[trigger] m@[a].len() == m@.len() by {
                assert(m.rows@[a]@.len() == n);
            }
        }
        Some(m)
    }

    /// The number of rows, which is also the number of columns.
    pub fn size(&self) -> (r: usize)
        ensures
            r == self@.len(),
    {
        self.rows.len()
    }

    /// The entry in row `row` and column `col`.
    pub fn get(&self, row: usize, col: usize) -> (r: T)
        requires
            self.wf(),
            row < self@.len(),
            col < self@.len(),
        ensures
            r == self@[row as int][col as int],
    {
        proof {
            assert(self@[row as int] == self.rows@[row as int]@);
        }
        self.rows[row][col]
    }
    /// The matrix without row `row_to_remove` and column `column_to_remove`;
    /// the other rows and columns keep their order.
    pub fn submatrix(&self, row_to_remove: usize, column_to_remove: usize) -> (r: Matrix<T>)
        requires
            self.wf(),
            row_to_remove < self@.len(),
            column_to_remove < self@.len(),
        ensures
            r.wf(),
            r@ == submatrix_of(self@, row_to_remove as int, column_to_remove as int),
    {
        let n = self.rows.len();
        let ghost s = self@;
        let ghost want = submatrix_of(s, row_to_remove as int, column_to_remove as int);
        let mut out: Vec<Vec<T>> = Vec::new();
        let mut i: usize = 0;
        while i < n
            invariant
                n == s.len(),
                s == self@,
                is_square(s),
                row_to_remove < n,
                column_to_remove < n,
                want == submatrix_of(s, row_to_remove as int, column_to_remove as int),
                0 <= i <= n,
                out@.len() == if i <= row_to_remove { i as int } else { i - 1 },
                forall|a: int| 0 <= a < out@.len() ==> #[trigger] out@[a]@ == want[a],
            decreases n - i,
        {
            if i != row_to_remove {
                proof {
                    assert(s[i as int] == self.rows@[i as int]@);
                }
                let mut row: Vec<T> = Vec::new();
                let mut j: usize = 0;
                while j < n
                    invariant
                        n == s.len(),
                        s == self@,
                        is_square(s),
                        i < n,
                        i != row_to_remove,
                        column_to_remove < n,
                        s[i as int] == self.rows@[i as int]@,
                        0 <= j <= n,
                        row@.len() == if j <= column_to_remove { j as int } else { j - 1 },
                        forall|b: int|
                            0 <= b < row@.len() ==> #[trigger] row@[b] == s[i as int][kept_index(
                                b,
                                column_to_remove as int,
                            )],
                    decreases n - j,
                {
                    if j != column_to_remove {
                        row.push(self.rows[i][j]);
                    }
                    j += 1;
                }
                proof {
                    let k = out@.len() as int;
                    assert(kept_index(k, row_to_remove as int) == i);
                    assert(row@ =~= want[k]);
                }
                out.push(row);
            }
            i += 1;
        }
        let r = Matrix { rows: out };
        proof {
            assert(r@ =~= want);
        }
        r
    }

    /// The matrix with rows and columns swapped: `r[i][j] == self[j][i]`.
    pub fn transpose(&self) -> (r: Matrix<T>)
        requires
            self.wf(),
        ensures
            r.wf(),
            r@ == transpose_of(self@),
    {
        let n = self.rows.len();
        let ghost s = self@;
        let mut out: Vec<Vec<T>> = Vec::new();
        let mut i: usize = 0;
        while i < n
            invariant
                n == s.len(),
                s == self@,
                is_square(s),
                0 <= i <= n,
                out@.len() == i,
                forall|a: int| 0 <= a < i ==> #[trigger] out@[a]@ == transpose_of(s)[a],
            decreases n - i,
        {
            let mut row: Vec<T> = Vec::new();
            let mut j: usize = 0;
            while j < n
                invariant
                    n == s.len(),
                    s == self@,
                    is_square(s),
                    i < n,
                    0 <= j <= n,
                    row@.len() == j,
                    forall|b: int| 0 <= b < j ==> #[trigger] row@[b] == s[b][i as int],
                decreases n - j,
            {
                proof {
                    assert(s[j as int] == self.rows@[j as int]@);
                }
                row.push(self.rows[j][i]);
                j += 1;
            }
            proof {
                assert(row@ =~= transpose_of(s)[i as int]);
            }
            out.push(row);
            i += 1;
        }
        let r = Matrix { rows: out };
        proof {
            assert(r@ =~= transpose_of(s));
        }
        r
    }
    /// The `n` by `n` identity matrix, with `one` on the diagonal and `zero`
    /// elsewhere.
    pub fn identity(n: usize, zero: T, one: T) -> (r: Matrix<T>)
        ensures
            r.wf(),
            r@ == identity_of(n as nat, zero, one),
    {
        let ghost want = identity_of(n as nat, zero, one);
        let mut out: Vec<Vec<T>> = Vec::new();
        let mut i: usize = 0;
        while i < n
            invariant
                want == identity_of(n as nat, zero, one),
                0 <= i <= n,
                out@.len() == i,
                forall|a: int| 0 <= a < i ==> #[trigger] out@[a]@ == want[a],
            decreases n - i,
        {
            let mut row: Vec<T> = Vec::new();
            let mut j: usize = 0;
            while j < n
                invariant
                    i < n,
                    0 <= j <= n,
                    row@.len() == j,
                    forall|b: int|
                        0 <= b < j ==> #[trigger] row@[b] == (if i == b {
                            one
                        } else {
                            zero
                        }),
                decreases n - j,
            {
                if i == j {
                    row.push(one);
                } else {
                    row.push(zero);
                }
                j += 1;
            }
            proof {
                assert(row@ =~= want[i as int]);
            }
            out.push(row);
            i += 1;
        }
        let r = Matrix { rows: out };
        proof {
            assert(r@ =~= want);
        }
        r
    }

    /// The 4 by 4 matrix that translates a point by `(x, y, z)`: the identity
    /// with `x`, `y` and `z` at the top of the last column.
    pub fn translation(zero: T, one: T, x: T, y: T, z: T) -> (r: Matrix<T>)
        ensures
            r.wf(),
            r@ == translation_of(zero, one, x, y, z),
    {
        let mut m = Matrix::identity(4, zero, one);
        m.set(0, 3, x);
        m.set(1, 3, y);
        m.set(2, 3, z);
        m
    }

    /// Writes `value` at row `row` and column `col`; every other entry stays.
    pub fn set(&mut self, row: usize, col: usize, value: T)
        requires
            old(self).wf(),
            row < old(self)@.len(),
            col < old(self)@.len(),
        ensures
            final(self).wf(),
            final(self)@ == old(self)@.update(row as int, old(self)@[row as int].update(col as int, value)),
    {
        let n = self.rows.len();
        let ghost s = self@;
        proof {
            assert(s[row as int] == self.rows@[row as int]@);
        }
        let mut new_row: Vec<T> = Vec::new();
        let mut j: usize = 0;
        while j < n
            invariant
                n == s.len(),
                s == self@,
                is_square(s),
                row < n,
                col < n,
                s[row as int] == self.rows@[row as int]@,
                0 <= j <= n,
                new_row@.len() == j,
                forall|b: int|
                    0 <= b < j ==> #[trigger] new_row@[b] == s[row as int].update(col as int, value)[b],
            decreases n - j,
        {
            if j == col {
                new_row.push(value);
            } else {
                new_row.push(self.rows[row][j]);
            }
            j += 1;
        }
        proof {
            assert(new_row@ =~= s[row as int].update(col as int, value));
        }
        self.rows.set(row, new_row);
        proof {
            assert(self@ =~= s.update(row as int, s[row as int].update(col as int, value)));
        }
    }
}

} // verus!

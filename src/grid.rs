use vstd::prelude::*;

use crate::error::NetError;
use crate::scalar::Scalar;

verus! {

/// A dense matrix stored row by row: one row per sample, one column per
/// feature.
pub struct Grid<T> {
    pub rows: usize,
    pub cols: usize,
    pub data: Vec<Vec<T>>,
}

impl<T> View for Grid<T> {
    type V = Seq<Seq<T>>;

    open spec fn view(&self) -> Seq<Seq<T>> {
        self.data@.map_values(|r: Vec<T>| r@)
    }
}

/// `m` has `r` rows of `c` entries each.
pub open spec fn has_shape<T>(m: Seq<Seq<T>>, r: int, c: int) -> bool {
    &&& m.len() == r
    &&& forall|i: int| 0 <= i < r ==> (#[trigger] m[i]).len() == c
}

/// `a[0] * b[0] + ... + a[n-1] * b[n-1]`, summed from the left starting at zero.
pub open spec fn dot<T: Scalar>(a: Seq<T>, b: Seq<T>, n: nat) -> T
    decreases n,
{
    if n == 0 {
        T::zero_spec()
    } else {
        T::add_spec(dot(a, b, (n - 1) as nat), T::mul_spec(a[n - 1], b[n - 1]))
    }
}

/// `s[0] + ... + s[n-1]`, summed from the left starting at zero.
pub open spec fn total<T: Scalar>(s: Seq<T>, n: nat) -> T
    decreases n,
{
    if n == 0 {
        T::zero_spec()
    } else {
        T::add_spec(total(s, (n - 1) as nat), s[n - 1])
    }
}

/// Column `j` of `m`.
pub open spec fn column<T>(m: Seq<Seq<T>>, j: int) -> Seq<T> {
    Seq::new(m.len(), |i: int| m[i][j])
}

/// The transpose of a matrix with `cols` columns.
pub open spec fn transposed<T>(m: Seq<Seq<T>>, cols: nat) -> Seq<Seq<T>> {
    Seq::new(cols, |j: int| column(m, j))
}

/// `a · bᵀ` where both have `n` columns: entry `(i, j)` is the dot product
/// of row `i` of `a` with row `j` of `b`.
pub open spec fn times_transposed<T: Scalar>(a: Seq<Seq<T>>, b: Seq<Seq<T>>, n: nat) -> Seq<
    Seq<T>,
> {
    Seq::new(a.len(), |i: int| Seq::new(b.len(), |j: int| dot(a[i], b[j], n)))
}

/// `m` with the column `c` added to every row: entry `(i, j)` is
/// `m[i][j] + c[j][0]`.
pub open spec fn plus_column<T: Scalar>(m: Seq<Seq<T>>, c: Seq<Seq<T>>) -> Seq<Seq<T>> {
    Seq::new(m.len(), |i: int| Seq::new(m[i].len(), |j: int| T::add_spec(m[i][j], c[j][0])))
}

/// The sums of the columns of `m`, as a column of `cols` entries.
pub open spec fn column_totals<T: Scalar>(m: Seq<Seq<T>>, cols: nat) -> Seq<Seq<T>> {
    Seq::new(cols, |j: int| seq![total(column(m, j), m.len())])
}

/// One descent step: entry `(i, j)` is `w[i][j] - g[i][j] * rate`.
pub open spec fn descent_step<T: Scalar>(w: Seq<Seq<T>>, g: Seq<Seq<T>>, rate: T) -> Seq<
    Seq<T>,
> {
    Seq::new(
        w.len(),
        |i: int| Seq::new(w[i].len(), |j: int| T::sub_spec(w[i][j], T::mul_spec(g[i][j], rate))),
    )
}

impl<T> Grid<T> {
    /// The stored rows match `rows` and `cols`.
    pub open spec fn wf(&self) -> bool {
        has_shape(self@, self.rows as int, self.cols as int)
    }

    /// Builds a matrix from its rows, each of which must hold `cols` entries.
    pub fn from_rows(data: Vec<Vec<T>>, cols: usize) -> (r: Result<Grid<T>, NetError>)
        ensures
            has_shape(data@.map_values(|v: Vec<T>| v@), data@.len() as int, cols as int) <==> r
                is Ok,
            r is Err ==> r == Err::<Grid<T>, NetError>(NetError::ShapeMismatch),
            r matches Ok(g) ==> g.wf() && g.rows == data@.len() && g.cols == cols && g@
                == data@.map_values(|v: Vec<T>| v@),
    {
        let ghost view = data@.map_values(|v: Vec<T>| v@);
        let mut i: usize = 0;
        while i < data.len()
            invariant
                i <= data@.len(),
                view == data@.map_values(|v: Vec<T>| v@),
                forall|k: int| 0 <= k < i ==> (#[trigger] view[k]).len() == cols,
            decreases data@.len() - i,
        {
            if data[i].len() != cols {
                assert(view[i as int].len() != cols);
                return Err(NetError::ShapeMismatch);
            }
            i += 1;
        }
        let rows = data.len();
        Ok(Grid { rows, cols, data })
    }

    pub fn rows(&self) -> (r: usize)
        ensures
            r == self.rows,
    {
        self.rows
    }

    pub fn cols(&self) -> (r: usize)
        ensures
            r == self.cols,
    {
        self.cols
    }
}

impl<T: Copy> Grid<T> {
    /// The entry in row `i`, column `j`.
    pub fn get(&self, i: usize, j: usize) -> (r: T)
        requires
            self.wf(),
            i < self.rows,
            j < self.cols,
        ensures
            r == self@[i as int][j as int],
    {
        assert(self@[i as int].len() == self.cols);
        self.data[i][j]
    }

    /// A matrix of `rows` by `cols` entries, all equal to `v`.
    pub fn filled(rows: usize, cols: usize, v: T) -> (r: Grid<T>)
        ensures
            r.wf(),
            r.rows == rows,
            r.cols == cols,
            r@ == Seq::new(rows as nat, |i: int| Seq::new(cols as nat, |j: int| v)),
    {
        let mut out: Vec<Vec<T>> = Vec::new();
        let mut i: usize = 0;
        while i < rows
            invariant
                i <= rows,
                out@.len() == i,
                forall|k: int| 0 <= k < i ==> (#[trigger] out@[k])@ == Seq::new(cols as nat, |j: int| v),
            decreases rows - i,
        {
            let mut row: Vec<T> = Vec::new();
            let mut j: usize = 0;
            while j < cols
                invariant
                    j <= cols,
                    row@ == Seq::new(j as nat, |c: int| v),
                decreases cols - j,
            {
                row.push(v);
                j += 1;
                assert(row@ =~= Seq::new(j as nat, |c: int| v));
            }
            out.push(row);
            i += 1;
        }
        let r = Grid { rows, cols, data: out };
        assert(r@ =~~= Seq::new(rows as nat, |i: int| Seq::new(cols as nat, |j: int| v)));
        r
    }

    /// A copy of the matrix, entry for entry.
    pub fn copy(&self) -> (r: Grid<T>)
        requires
            self.wf(),
        ensures
            r.wf(),
            r.rows == self.rows,
            r.cols == self.cols,
            r@ == self@,
    {
        let mut out: Vec<Vec<T>> = Vec::new();
        let mut i: usize = 0;
        while i < self.rows
            invariant
                self.wf(),
                i <= self.rows,
                out@.len() == i,
                forall|k: int| 0 <= k < i ==> (#[trigger] out@[k])@ == self@[k],
            decreases self.rows - i,
        {
            let mut row: Vec<T> = Vec::new();
            let mut j: usize = 0;
            while j < self.cols
                invariant
                    self.wf(),
                    i < self.rows,
                    j <= self.cols,
                    row@ == self@[i as int].subrange(0, j as int),
                decreases self.cols - j,
            {
                row.push(self.data[i][j]);
                j += 1;
                assert(row@ =~= self@[i as int].subrange(0, j as int));
            }
            assert(row@ =~= self@[i as int]);
            out.push(row);
            i += 1;
        }
        let r = Grid { rows: self.rows, cols: self.cols, data: out };
        assert(r@ =~~= self@);
        r
    }

    /// The transpose: `cols` rows of `rows` entries.
    pub fn transpose(&self) -> (r: Grid<T>)
        requires
            self.wf(),
        ensures
            r.wf(),
            r.rows == self.cols,
            r.cols == self.rows,
            r@ == transposed(self@, self.cols as nat),
    {
        let ghost spec_t = transposed(self@, self.cols as nat);
        let mut out: Vec<Vec<T>> = Vec::new();
        let mut j: usize = 0;
        while j < self.cols
            invariant
                self.wf(),
                spec_t == transposed(self@, self.cols as nat),
                j <= self.cols,
                out@.len() == j,
                forall|k: int| 0 <= k < j ==> (#[trigger] out@[k])@ == spec_t[k],
            decreases self.cols - j,
        {
            let mut row: Vec<T> = Vec::new();
            let mut i: usize = 0;
            while i < self.rows
                invariant
                    self.wf(),
                    spec_t == transposed(self@, self.cols as nat),
                    j < self.cols,
                    i <= self.rows,
                    row@ == spec_t[j as int].subrange(0, i as int),
                decreases self.rows - i,
            {
                assert(self@[i as int].len() == self.cols);
                row.push(self.data[i][j]);
                i += 1;
                assert(row@ =~= spec_t[j as int].subrange(0, i as int));
            }
            assert(row@ =~= spec_t[j as int]);
            out.push(row);
            j += 1;
        }
        let r = Grid { rows: self.cols, cols: self.rows, data: out };
        assert(r@ =~~= spec_t);
        r
    }
}

impl<T: Scalar> Grid<T> {
    /// `self · otherᵀ`: entry `(i, j)` is the dot product of row `i` of
    /// `self` with row `j` of `other`.
    pub fn times_transposed(&self, other: &Grid<T>) -> (r: Grid<T>)
        requires
            self.wf(),
            other.wf(),
            self.cols == other.cols,
        ensures
            r.wf(),
            r.rows == self.rows,
            r.cols == other.rows,
            r@ == times_transposed(self@, other@, self.cols as nat),
    {
        let ghost want = times_transposed(self@, other@, self.cols as nat);
        let n = self.cols;
        let mut out: Vec<Vec<T>> = Vec::new();
        let mut i: usize = 0;
        while i < self.rows
            invariant
                self.wf(),
                other.wf(),
                n == self.cols,
                self.cols == other.cols,
                want == times_transposed(self@, other@, n as nat),
                i <= self.rows,
                out@.len() == i,
                forall|k: int| 0 <= k < i ==> (#[trigger] out@[k])@ == want[k],
            decreases self.rows - i,
        {
            let mut row: Vec<T> = Vec::new();
            let mut j: usize = 0;
            while j < other.rows
                invariant
                    self.wf(),
                    other.wf(),
                    n == self.cols,
                    self.cols == other.cols,
                    want == times_transposed(self@, other@, n as nat),
                    i < self.rows,
                    j <= other.rows,
                    row@ == want[i as int].subrange(0, j as int),
                decreases other.rows - j,
            {
                let mut acc = T::zero();
                let mut k: usize = 0;
                assert(self@[i as int].len() == n);
                assert(other@[j as int].len() == n);
                while k < n
                    invariant
                        self.wf(),
                        other.wf(),
                        n == self.cols,
                        self.cols == other.cols,
                        i < self.rows,
                        j < other.rows,
                        k <= n,
                        self@[i as int].len() == n,
                        other@[j as int].len() == n,
                        acc == dot(self@[i as int], other@[j as int], k as nat),
                    decreases n - k,
                {
                    acc = acc.plus(self.data[i][k].times(other.data[j][k]));
                    k += 1;
                }
                row.push(acc);
                j += 1;
                assert(row@ =~= want[i as int].subrange(0, j as int));
            }
            assert(row@ =~= want[i as int]);
            out.push(row);
            i += 1;
        }
        let r = Grid { rows: self.rows, cols: other.rows, data: out };
        assert(r@ =~~= want);
        r
    }

    /// Adds the column `c` (one entry per column of `self`) to every row.
    pub fn plus_column(&self, c: &Grid<T>) -> (r: Grid<T>)
        requires
            self.wf(),
            c.wf(),
            c.rows == self.cols,
            c.cols == 1,
        ensures
            r.wf(),
            r.rows == self.rows,
            r.cols == self.cols,
            r@ == plus_column(self@, c@),
    {
        let ghost want = plus_column(self@, c@);
        let mut out: Vec<Vec<T>> = Vec::new();
        let mut i: usize = 0;
        while i < self.rows
            invariant
                self.wf(),
                c.wf(),
                c.rows == self.cols,
                c.cols == 1,
                want == plus_column(self@, c@),
                i <= self.rows,
                out@.len() == i,
                forall|k: int| 0 <= k < i ==> (#[trigger] out@[k])@ == want[k],
            decreases self.rows - i,
        {
            let mut row: Vec<T> = Vec::new();
            let mut j: usize = 0;
            assert(self@[i as int].len() == self.cols);
            while j < self.cols
                invariant
                    self.wf(),
                    c.wf(),
                    c.rows == self.cols,
                    c.cols == 1,
                    want == plus_column(self@, c@),
                    i < self.rows,
                    j <= self.cols,
                    self@[i as int].len() == self.cols,
                    row@ == want[i as int].subrange(0, j as int),
                decreases self.cols - j,
            {
                assert(c@[j as int].len() == 1);
                row.push(self.data[i][j].plus(c.data[j][0]));
                j += 1;
                assert(row@ =~= want[i as int].subrange(0, j as int));
            }
            assert(row@ =~= want[i as int]);
            out.push(row);
            i += 1;
        }
        let r = Grid { rows: self.rows, cols: self.cols, data: out };
        assert(r@ =~~= want);
        r
    }

    /// The sum of each column, as a column with one entry per column of `self`.
    pub fn column_totals(&self) -> (r: Grid<T>)
        requires
            self.wf(),
        ensures
            r.wf(),
            r.rows == self.cols,
            r.cols == 1,
            r@ == column_totals(self@, self.cols as nat),
    {
        let ghost want = column_totals(self@, self.cols as nat);
        let mut out: Vec<Vec<T>> = Vec::new();
        let mut j: usize = 0;
        while j < self.cols
            invariant
                self.wf(),
                want == column_totals(self@, self.cols as nat),
                j <= self.cols,
                out@.len() == j,
                forall|k: int| 0 <= k < j ==> (#[trigger] out@[k])@ == want[k],
            decreases self.cols - j,
        {
            let ghost col = column(self@, j as int);
            let mut acc = T::zero();
            let mut i: usize = 0;
            while i < self.rows
                invariant
                    self.wf(),
                    j < self.cols,
                    i <= self.rows,
                    col == column(self@, j as int),
                    acc == total(col, i as nat),
                decreases self.rows - i,
            {
                assert(self@[i as int].len() == self.cols);
                acc = acc.plus(self.data[i][j]);
                i += 1;
            }
            let mut row: Vec<T> = Vec::new();
            row.push(acc);
            assert(row@ =~= want[j as int]);
            out.push(row);
            j += 1;
        }
        let r = Grid { rows: self.cols, cols: 1, data: out };
        assert(r@ =~~= want);
        r
    }

    /// One descent step: every entry becomes `self[i][j] - g[i][j] * rate`.
    pub fn descend(&self, g: &Grid<T>, rate: T) -> (r: Grid<T>)
        requires
            self.wf(),
            g.wf(),
            g.rows == self.rows,
            g.cols == self.cols,
        ensures
            r.wf(),
            r.rows == self.rows,
            r.cols == self.cols,
            r@ == descent_step(self@, g@, rate),
    {
        let ghost want = descent_step(self@, g@, rate);
        let mut out: Vec<Vec<T>> = Vec::new();
        let mut i: usize = 0;
        while i < self.rows
            invariant
                self.wf(),
                g.wf(),
                g.rows == self.rows,
                g.cols == self.cols,
                want == descent_step(self@, g@, rate),
                i <= self.rows,
                out@.len() == i,
                forall|k: int| 0 <= k < i ==> (#[trigger] out@[k])@ == want[k],
            decreases self.rows - i,
        {
            let mut row: Vec<T> = Vec::new();
            let mut j: usize = 0;
            assert(self@[i as int].len() == self.cols);
            assert(g@[i as int].len() == self.cols);
            while j < self.cols
                invariant
                    self.wf(),
                    g.wf(),
                    g.rows == self.rows,
                    g.cols == self.cols,
                    want == descent_step(self@, g@, rate),
                    i < self.rows,
                    j <= self.cols,
                    self@[i as int].len() == self.cols,
                    g@[i as int].len() == self.cols,
                    row@ == want[i as int].subrange(0, j as int),
                decreases self.cols - j,
            {
                row.push(self.data[i][j].minus(g.data[i][j].times(rate)));
                j += 1;
                assert(row@ =~= want[i as int].subrange(0, j as int));
            }
            assert(row@ =~= want[i as int]);
            out.push(row);
            i += 1;
        }
        let r = Grid { rows: self.rows, cols: self.cols, data: out };
        assert(r@ =~~= want);
        r
    }
}

} // verus!

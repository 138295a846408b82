use vstd::prelude::*;

use crate::error::NetError;
use crate::grid::{has_shape, Grid};
use crate::scalar::Scalar;

verus! {

/// `acc + r[0] + ... + r[n-1]`, added from the left.
pub open spec fn fold_row<T: Scalar>(acc: T, r: Seq<T>, n: nat) -> T
    decreases n,
{
    if n == 0 {
        acc
    } else {
        T::add_spec(fold_row(acc, r, (n - 1) as nat), r[n - 1])
    }
}

/// The sum of the first `k` rows of `m`, entry after entry in row order,
/// starting from zero.
pub open spec fn fold_rows<T: Scalar>(m: Seq<Seq<T>>, k: nat) -> T
    decreases k,
{
    if k == 0 {
        T::zero_spec()
    } else {
        fold_row(fold_rows(m, (k - 1) as nat), m[k - 1], m[k - 1].len())
    }
}

/// `(target − prediction)²`, entry by entry.
pub open spec fn squared_errors<T: Scalar>(p: Seq<Seq<T>>, t: Seq<Seq<T>>) -> Seq<Seq<T>> {
    Seq::new(
        p.len(),
        |i: int|
            Seq::new(
                p[i].len(),
                |j: int| T::mul_spec(T::sub_spec(t[i][j], p[i][j]), T::sub_spec(t[i][j], p[i][j])),
            ),
    )
}

/// The mean of the squared errors over all `n` entries.
pub open spec fn mean_squared_error<T: Scalar>(p: Seq<Seq<T>>, t: Seq<Seq<T>>, n: usize) -> T {
    T::div_spec(fold_rows(squared_errors(p, t), p.len()), T::count_spec(n))
}

/// The gradient of the mean squared error over `n` entries with respect to
/// the prediction: `2 · (prediction − target) / n`, entry by entry.
pub open spec fn error_gradient<T: Scalar>(p: Seq<Seq<T>>, t: Seq<Seq<T>>, n: usize) -> Seq<
    Seq<T>,
> {
    Seq::new(
        p.len(),
        |i: int|
            Seq::new(
                p[i].len(),
                |j: int|
                    T::div_spec(
                        T::mul_spec(T::count_spec(2), T::sub_spec(p[i][j], t[i][j])),
                        T::count_spec(n),
                    ),
            ),
    )
}

/// The mean-squared-error loss. `forward` keeps the gradient with respect
/// to the prediction, which `backward` hands out.
pub struct MSE<T> {
    pub grad: Option<Grid<T>>,
}

impl<T: Scalar> MSE<T> {
    pub open spec fn wf(&self) -> bool {
        self.grad matches Some(g) ==> g.wf()
    }

    /// A loss with no gradient kept.
    pub fn new() -> (r: MSE<T>)
        ensures
            r.wf(),
            r.grad is None,
    {
        MSE { grad: None }
    }

    /// The mean of `(target − prediction)²` over all entries; keeps
    /// `2 · (prediction − target) / n` for `backward`, `n` being the number
    /// of entries.
    pub fn forward(&mut self, prediction: &Grid<T>, target: &Grid<T>) -> (r: Result<T, NetError>)
        requires
            old(self).wf(),
            prediction.wf(),
            target.wf(),
            0 < prediction.rows * prediction.cols <= usize::MAX,
        ensures
            final(self).wf(),
            r is Ok <==> (prediction.rows == target.rows && prediction.cols == target.cols),
            r is Err ==> r == Err::<T, NetError>(NetError::ShapeMismatch) && *final(self)
                == *old(self),
            r matches Ok(loss) ==> {
                let n = (prediction.rows * prediction.cols) as usize;
                &&& loss == mean_squared_error(prediction@, target@, n)
                &&& final(self).grad matches Some(g) && g.rows == prediction.rows && g.cols
                    == prediction.cols && g@ == error_gradient(prediction@, target@, n)
            },
    {
        if prediction.rows != target.rows || prediction.cols != target.cols {
            return Err(NetError::ShapeMismatch);
        }
        let n: usize = prediction.rows * prediction.cols;
        let ghost p = prediction@;
        let ghost t = target@;
        let ghost sq = squared_errors(p, t);
        let ghost want = error_gradient(p, t, n);
        let two = T::count(2);
        let count = T::count(n);
        let mut acc = T::zero();
        let mut out: Vec<Vec<T>> = Vec::new();
        let mut i: usize = 0;
        while i < prediction.rows
            invariant
                prediction.wf(),
                target.wf(),
                prediction.rows == target.rows,
                prediction.cols == target.cols,
                p == prediction@,
                t == target@,
                sq == squared_errors(p, t),
                want == error_gradient(p, t, n),
                two == T::count_spec(2),
                count == T::count_spec(n),
                i <= prediction.rows,
                acc == fold_rows(sq, i as nat),
                out@.len() == i,
                forall|k: int| 0 <= k < i ==> (#[trigger] out@[k])@ == want[k],
            decreases prediction.rows - i,
        {
            let ghost start = acc;
            let mut row: Vec<T> = Vec::new();
            let mut j: usize = 0;
            assert(p[i as int].len() == prediction.cols);
            assert(t[i as int].len() == prediction.cols);
            assert(sq[i as int].len() == prediction.cols);
            while j < prediction.cols
                invariant
                    prediction.wf(),
                    target.wf(),
                    prediction.rows == target.rows,
                    prediction.cols == target.cols,
                    p == prediction@,
                    t == target@,
                    sq == squared_errors(p, t),
                    want == error_gradient(p, t, n),
                    two == T::count_spec(2),
                    count == T::count_spec(n),
                    i < prediction.rows,
                    j <= prediction.cols,
                    p[i as int].len() == prediction.cols,
                    t[i as int].len() == prediction.cols,
                    sq[i as int].len() == prediction.cols,
                    start == fold_rows(sq, i as nat),
                    acc == fold_row(start, sq[i as int], j as nat),
                    row@ == want[i as int].subrange(0, j as int),
                decreases prediction.cols - j,
            {
                let pv = prediction.data[i][j];
                let tv = target.data[i][j];
                let err = tv.minus(pv);
                acc = acc.plus(err.times(err));
                row.push(two.times(pv.minus(tv)).divided_by(count));
                j += 1;
                assert(row@ =~= want[i as int].subrange(0, j as int));
            }
            assert(row@ =~= want[i as int]);
            out.push(row);
            i += 1;
        }
        let g = Grid { rows: prediction.rows, cols: prediction.cols, data: out };
        assert(g@ =~~= want);
        self.grad = Some(g);
        Ok(acc.divided_by(count))
    }

    /// The gradient kept by the last `forward`.
    pub fn backward(&self) -> (r: Result<Grid<T>, NetError>)
        requires
            self.wf(),
        ensures
            self.grad is None ==> r == Err::<Grid<T>, NetError>(NetError::BackwardBeforeForward),
            self.grad matches Some(g) ==> r matches Ok(d) && d.wf() && d.rows == g.rows && d.cols
                == g.cols && d@ == g@,
    {
        match &self.grad {
            None => Err(NetError::BackwardBeforeForward),
            Some(g) => Ok(g.copy()),
        }
    }
}

proof fn lemma_fold_row_of_zeros<T: Scalar>(r: Seq<T>, n: nat)
    requires
        n <= r.len(),
        T::add_spec(T::zero_spec(), T::zero_spec()) == T::zero_spec(),
        forall|j: int| 0 <= j < n ==> #[trigger] r[j] == T::zero_spec(),
    ensures
        fold_row(T::zero_spec(), r, n) == T::zero_spec(),
    decreases n,
{
    if n > 0 {
        lemma_fold_row_of_zeros(r, (n - 1) as nat);
    }
}

proof fn lemma_fold_rows_of_zeros<T: Scalar>(m: Seq<Seq<T>>, k: nat)
    requires
        k <= m.len(),
        T::add_spec(T::zero_spec(), T::zero_spec()) == T::zero_spec(),
        forall|i: int, j: int|
            0 <= i < k && 0 <= j < m[i].len() ==> #[trigger] m[i][j] == T::zero_spec(),
    ensures
        fold_rows(m, k) == T::zero_spec(),
    decreases k,
{
    if k > 0 {
        lemma_fold_rows_of_zeros(m, (k - 1) as nat);
        let row = m[k - 1];
        assert forall|j: int| 0 <= j < row.len() implies #[trigger] row[j] == T::zero_spec() by {
            assert(m[k - 1][j] == T::zero_spec());
        }
        lemma_fold_row_of_zeros(row, row.len());
    }
}

/// A prediction that equals its target has zero loss and an all-zero
/// gradient, wherever the element type's arithmetic is exact on it: each
/// entry minus itself is zero, zero plus or times zero is zero, twice zero
/// is zero, and zero divided by the entry count is zero.
pub proof fn law_exact_prediction_has_zero_loss<T: Scalar>(p: Seq<Seq<T>>, r: int, c: int, n: usize)
    requires
        has_shape(p, r, c),
        forall|i: int, j: int|
            0 <= i < r && 0 <= j < c ==> T::sub_spec(#[trigger] p[i][j], p[i][j]) == T::zero_spec(),
        T::add_spec(T::zero_spec(), T::zero_spec()) == T::zero_spec(),
        T::mul_spec(T::zero_spec(), T::zero_spec()) == T::zero_spec(),
        T::mul_spec(T::count_spec(2), T::zero_spec()) == T::zero_spec(),
        T::div_spec(T::zero_spec(), T::count_spec(n)) == T::zero_spec(),
    ensures
        mean_squared_error(p, p, n) == T::zero_spec(),
        forall|i: int, j: int|
            0 <= i < r && 0 <= j < c ==> #[trigger] error_gradient(p, p, n)[i][j] == T::zero_spec(),
{
    let sq = squared_errors(p, p);
    assert forall|i: int, j: int| 0 <= i < r && 0 <= j < sq[i].len() implies #[trigger] sq[i][j]
        == T::zero_spec() by {
        assert(p[i].len() == c);
        assert(T::sub_spec(p[i][j], p[i][j]) == T::zero_spec());
    }
    lemma_fold_rows_of_zeros(sq, r as nat);
    assert forall|i: int, j: int| 0 <= i < r && 0 <= j < c implies #[trigger] error_gradient(
        p,
        p,
        n,
    )[i][j] == T::zero_spec() by {
        assert(p[i].len() == c);
        assert(T::sub_spec(p[i][j], p[i][j]) == T::zero_spec());
    }
}

} // verus!

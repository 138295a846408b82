use vstd::prelude::*;

use crate::error::NetError;
use crate::grid::{has_shape, Grid};
use crate::scalar::Scalar;

verus! {

/// `max(x, 0)` entry by entry: an entry is kept where it is positive and
/// replaced by zero elsewhere.
pub open spec fn rectified<T: Scalar>(x: Seq<Seq<T>>) -> Seq<Seq<T>> {
    Seq::new(
        x.len(),
        |i: int|
            Seq::new(
                x[i].len(),
                |j: int|
                    if T::positive_spec(x[i][j]) {
                        x[i][j]
                    } else {
                        T::zero_spec()
                    },
            ),
    )
}

/// The derivative mask of the rectifier: `true` exactly where the entry is
/// strictly above zero.
pub open spec fn positivity<T: Scalar>(x: Seq<Seq<T>>) -> Seq<Seq<bool>> {
    Seq::new(x.len(), |i: int| Seq::new(x[i].len(), |j: int| T::positive_spec(x[i][j])))
}

/// `g` where the mask is set, zero where it is not.
pub open spec fn masked<T: Scalar>(g: Seq<Seq<T>>, mask: Seq<Seq<bool>>) -> Seq<Seq<T>> {
    Seq::new(
        g.len(),
        |i: int|
            Seq::new(
                g[i].len(),
                |j: int|
                    if mask[i][j] {
                        g[i][j]
                    } else {
                        T::zero_spec()
                    },
            ),
    )
}

/// The rectified-linear layer. It has no parameters; `forward` keeps the
/// derivative mask of its input for `backward`.
pub struct ReLU {
    pub mask: Option<Grid<bool>>,
}

impl ReLU {
    pub open spec fn wf(&self) -> bool {
        self.mask matches Some(m) ==> m.wf()
    }

    /// A layer with no mask kept.
    pub fn new() -> (r: ReLU)
        ensures
            r.wf(),
            r.mask is None,
    {
        ReLU { mask: None }
    }

    fn rectify<T: Scalar>(x: &Grid<T>) -> (r: (Grid<T>, Grid<bool>))
        requires
            x.wf(),
        ensures
            r.0.wf(),
            r.0.rows == x.rows,
            r.0.cols == x.cols,
            r.0@ == rectified(x@),
            r.1.wf(),
            r.1.rows == x.rows,
            r.1.cols == x.cols,
            r.1@ == positivity(x@),
    {
        let ghost want = rectified(x@);
        let ghost want_mask = positivity(x@);
        let zero = T::zero();
        let mut out: Vec<Vec<T>> = Vec::new();
        let mut bits: Vec<Vec<bool>> = Vec::new();
        let mut i: usize = 0;
        while i < x.rows
            invariant
                x.wf(),
                zero == T::zero_spec(),
                want == rectified(x@),
                want_mask == positivity(x@),
                i <= x.rows,
                out@.len() == i,
                bits@.len() == i,
                forall|k: int| 0 <= k < i ==> (#[trigger] out@[k])@ == want[k],
                forall|k: int| 0 <= k < i ==> (#[trigger] bits@[k])@ == want_mask[k],
            decreases x.rows - i,
        {
            let mut row: Vec<T> = Vec::new();
            let mut brow: Vec<bool> = Vec::new();
            let mut j: usize = 0;
            assert(x@[i as int].len() == x.cols);
            while j < x.cols
                invariant
                    x.wf(),
                    zero == T::zero_spec(),
                    want == rectified(x@),
                    want_mask == positivity(x@),
                    i < x.rows,
                    j <= x.cols,
                    x@[i as int].len() == x.cols,
                    row@ == want[i as int].subrange(0, j as int),
                    brow@ == want_mask[i as int].subrange(0, j as int),
                decreases x.cols - j,
            {
                let v = x.data[i][j];
                let pos = v.is_positive();
                if pos {
                    row.push(v);
                } else {
                    row.push(zero);
                }
                brow.push(pos);
                j += 1;
                assert(row@ =~= want[i as int].subrange(0, j as int));
                assert(brow@ =~= want_mask[i as int].subrange(0, j as int));
            }
            assert(row@ =~= want[i as int]);
            assert(brow@ =~= want_mask[i as int]);
            out.push(row);
            bits.push(brow);
            i += 1;
        }
        let r = Grid { rows: x.rows, cols: x.cols, data: out };
        let m = Grid { rows: x.rows, cols: x.cols, data: bits };
        assert(r@ =~~= want);
        assert(m@ =~~= want_mask);
        (r, m)
    }

    /// `max(x, 0)` entry by entry, with nothing kept.
    pub fn get_output<T: Scalar>(&self, x: &Grid<T>) -> (r: Grid<T>)
        requires
            x.wf(),
        ensures
            r.wf(),
            r.rows == x.rows,
            r.cols == x.cols,
            r@ == rectified(x@),
    {
        let (y, _m) = ReLU::rectify(x);
        y
    }

    /// `max(x, 0)` entry by entry; keeps the mask of the positive entries of `x`.
    pub fn forward<T: Scalar>(&mut self, x: &Grid<T>) -> (r: Grid<T>)
        requires
            x.wf(),
        ensures
            final(self).wf(),
            r.wf(),
            r.rows == x.rows,
            r.cols == x.cols,
            r@ == rectified(x@),
            final(self).mask matches Some(m) && m.rows == x.rows && m.cols == x.cols && m@
                == positivity(x@),
    {
        let (y, m) = ReLU::rectify(x);
        self.mask = Some(m);
        y
    }

    /// `g` where the kept input was positive, zero elsewhere.
    pub fn backward<T: Scalar>(&self, g: &Grid<T>) -> (r: Result<Grid<T>, NetError>)
        requires
            self.wf(),
            g.wf(),
        ensures
            self.mask is None ==> r == Err::<Grid<T>, NetError>(NetError::BackwardBeforeForward),
            self.mask matches Some(m) ==> (r is Ok <==> (g.rows == m.rows && g.cols == m.cols)),
            self.mask is Some && r is Err ==> r == Err::<Grid<T>, NetError>(
                NetError::ShapeMismatch,
            ),
            r matches Ok(dx) ==> dx.wf() && dx.rows == g.rows && dx.cols == g.cols && dx@
                == masked(g@, self.mask.unwrap()@),
    {
        let m = match &self.mask {
            None => {
                return Err(NetError::BackwardBeforeForward);
            },
            Some(m) => m,
        };
        if g.rows != m.rows || g.cols != m.cols {
            return Err(NetError::ShapeMismatch);
        }
        let ghost want = masked(g@, m@);
        let zero = T::zero();
        let mut out: Vec<Vec<T>> = Vec::new();
        let mut i: usize = 0;
        while i < g.rows
            invariant
                g.wf(),
                m.wf(),
                g.rows == m.rows,
                g.cols == m.cols,
                zero == T::zero_spec(),
                want == masked(g@, m@),
                i <= g.rows,
                out@.len() == i,
                forall|k: int| 0 <= k < i ==> (#[trigger] out@[k])@ == want[k],
            decreases g.rows - i,
        {
            let mut row: Vec<T> = Vec::new();
            let mut j: usize = 0;
            assert(g@[i as int].len() == g.cols);
            assert(m@[i as int].len() == g.cols);
            while j < g.cols
                invariant
                    g.wf(),
                    m.wf(),
                    g.rows == m.rows,
                    g.cols == m.cols,
                    zero == T::zero_spec(),
                    want == masked(g@, m@),
                    i < g.rows,
                    j <= g.cols,
                    g@[i as int].len() == g.cols,
                    m@[i as int].len() == g.cols,
                    row@ == want[i as int].subrange(0, j as int),
                decreases g.cols - j,
            {
                if m.data[i][j] {
                    row.push(g.data[i][j]);
                } else {
                    row.push(zero);
                }
                j += 1;
                assert(row@ =~= want[i as int].subrange(0, j as int));
            }
            assert(row@ =~= want[i as int]);
            out.push(row);
            i += 1;
        }
        let r = Grid { rows: g.rows, cols: g.cols, data: out };
        assert(r@ =~~= want);
        Ok(r)
    }
}

/// The rectifier's gradient passes the upstream gradient through exactly
/// where the forward input was strictly positive, and is zero wherever that
/// input was zero or below.
pub proof fn law_rectifier_gradient<T: Scalar>(x: Seq<Seq<T>>, g: Seq<Seq<T>>, r: int, c: int)
    requires
        has_shape(x, r, c),
        has_shape(g, r, c),
    ensures
        forall|i: int, j: int|
            0 <= i < r && 0 <= j < c ==> {
                let d = #[trigger] masked(g, positivity(x))[i][j];
                &&& T::positive_spec(x[i][j]) ==> d == g[i][j]
                &&& !T::positive_spec(x[i][j]) ==> d == T::zero_spec()
            },
{
    assert forall|i: int, j: int| 0 <= i < r && 0 <= j < c implies {
        let d = #[trigger] masked(g, positivity(x))[i][j];
        &&& T::positive_spec(x[i][j]) ==> d == g[i][j]
        &&& !T::positive_spec(x[i][j]) ==> d == T::zero_spec()
    } by {
        assert(x[i].len() == c);
        assert(g[i].len() == c);
    }
}

} // verus!

use vstd::prelude::*;

use crate::error::NetError;
use crate::grid::{column_totals, descent_step, plus_column, times_transposed, transposed, Grid};
use crate::scalar::Scalar;

verus! {

/// `x · wᵀ + b`, with `b` added to every row; `x` and `w` have `n_in` columns.
pub open spec fn affine<T: Scalar>(x: Seq<Seq<T>>, w: Seq<Seq<T>>, b: Seq<Seq<T>>, n_in: nat) -> Seq<
    Seq<T>,
> {
    plus_column(times_transposed(x, w, n_in), b)
}

/// `gᵀ · x`: the gradient of the loss with respect to the weights, for an
/// upstream gradient `g` with `n_out` columns and an input `x` with `n_in`
/// columns, over a batch of `n` rows.
pub open spec fn weight_gradient<T: Scalar>(
    g: Seq<Seq<T>>,
    x: Seq<Seq<T>>,
    n_out: nat,
    n_in: nat,
    n: nat,
) -> Seq<Seq<T>> {
    times_transposed(transposed(g, n_out), transposed(x, n_in), n)
}

/// `g · w`: the gradient of the loss with respect to the layer's input.
pub open spec fn input_gradient<T: Scalar>(
    g: Seq<Seq<T>>,
    w: Seq<Seq<T>>,
    n_out: nat,
    n_in: nat,
) -> Seq<Seq<T>> {
    times_transposed(g, transposed(w, n_in), n_out)
}

/// The `n_out × n_in` weights read row by row from `draws`, from `start` on.
pub open spec fn drawn_weights<T>(draws: Seq<T>, start: int, n_in: nat, n_out: nat) -> Seq<Seq<T>> {
    Seq::new(n_out, |j: int| Seq::new(n_in, |c: int| draws[start + j * n_in + c]))
}

/// The bias column that follows those weights in `draws`.
pub open spec fn drawn_bias<T>(draws: Seq<T>, start: int, n_in: nat, n_out: nat) -> Seq<Seq<T>> {
    Seq::new(n_out, |j: int| seq![draws[start + n_out * n_in + j]])
}

/// Where an affine layer stands between its calls.
pub enum LinearCache<T> {
    /// No `forward` yet.
    Fresh,
    /// `forward` ran on `input`.
    Forwarded { input: Grid<T> },
    /// `backward` ran after a `forward` on `input`, and left these gradients.
    BackwardComputed { input: Grid<T>, grad_weights: Grid<T>, grad_bias: Grid<T> },
}

/// An affine layer `y = x · Wᵀ + b`, with `W` of `out × in` entries and `b`
/// a column of `out` entries.
pub struct LinearLayer<T> {
    pub weights: Grid<T>,
    pub bias: Grid<T>,
    pub cache: LinearCache<T>,
}

impl<T> LinearCache<T> {
    pub open spec fn is_fresh(&self) -> bool {
        self is Fresh
    }

    /// The input of the last `forward`, where there was one.
    pub open spec fn cached_input(&self) -> Option<Grid<T>> {
        match self {
            LinearCache::Fresh => None,
            LinearCache::Forwarded { input } => Some(*input),
            LinearCache::BackwardComputed { input, .. } => Some(*input),
        }
    }
}

impl<T> LinearLayer<T> {
    pub open spec fn in_features(&self) -> nat {
        self.weights.cols as nat
    }

    pub open spec fn out_features(&self) -> nat {
        self.weights.rows as nat
    }

    /// Parameters, cached input and gradients have the shapes the widths call for.
    pub open spec fn wf(&self) -> bool {
        &&& self.weights.wf()
        &&& self.bias.wf()
        &&& self.bias.rows == self.weights.rows
        &&& self.bias.cols == 1
        &&& match self.cache {
            LinearCache::Fresh => true,
            LinearCache::Forwarded { input } => input.wf() && input.cols == self.weights.cols,
            LinearCache::BackwardComputed { input, grad_weights, grad_bias } => {
                &&& input.wf()
                &&& input.cols == self.weights.cols
                &&& grad_weights.wf()
                &&& grad_weights.rows == self.weights.rows
                &&& grad_weights.cols == self.weights.cols
                &&& grad_bias.wf()
                &&& grad_bias.rows == self.weights.rows
                &&& grad_bias.cols == 1
            },
        }
    }

    /// What `get_output` gives for `x`, when `x` has `in_features` columns.
    pub open spec fn output_spec(&self, x: Seq<Seq<T>>) -> Seq<Seq<T>>
        where T: Scalar
    {
        affine(x, self.weights@, self.bias@, self.in_features())
    }
}

impl<T: Scalar> LinearLayer<T> {
    /// A fresh layer with the given weights (`out × in`) and bias (`out × 1`).
    pub fn from_parameters(weights: Grid<T>, bias: Grid<T>) -> (r: Result<LinearLayer<T>, NetError>)
        requires
            weights.wf(),
            bias.wf(),
        ensures
            r is Ok <==> (bias.rows == weights.rows && bias.cols == 1),
            r is Err ==> r == Err::<LinearLayer<T>, NetError>(NetError::ShapeMismatch),
            r matches Ok(l) ==> l.wf() && l.weights == weights && l.bias == bias && l.cache.is_fresh(),
    {
        if bias.rows != weights.rows || bias.cols != 1 {
            return Err(NetError::ShapeMismatch);
        }
        Ok(LinearLayer { weights, bias, cache: LinearCache::Fresh })
    }

    /// A fresh layer of `in_features` inputs and `out_features` outputs whose
    /// parameters are read from `draws` from position `start` on: first the
    /// weights row by row, then the bias.
    pub fn new(in_features: usize, out_features: usize, draws: &Vec<T>, start: usize) -> (r:
        LinearLayer<T>)
        requires
            start + out_features * in_features + out_features <= draws@.len(),
        ensures
            r.wf(),
            r.cache.is_fresh(),
            r.weights.rows == out_features,
            r.weights.cols == in_features,
            r.weights@ == drawn_weights(draws@, start as int, in_features as nat, out_features as nat),
            r.bias@ == drawn_bias(draws@, start as int, in_features as nat, out_features as nat),
    {
        let ghost want_w = Seq::new(
            out_features as nat,
            |j: int| Seq::new(in_features as nat, |c: int| draws@[start + j * in_features + c]),
        );
        let n_draws = draws.len();
        let mut w: Vec<Vec<T>> = Vec::new();
        let mut idx: usize = start;
        let mut j: usize = 0;
        while j < out_features
            invariant
                start + out_features * in_features + out_features <= draws@.len(),
                n_draws == draws@.len(),
                want_w == Seq::new(
                    out_features as nat,
                    |j: int|
                        Seq::new(in_features as nat, |c: int| draws@[start + j * in_features + c]),
                ),
                j <= out_features,
                idx == start + j * in_features,
                w@.len() == j,
                forall|k: int| 0 <= k < j ==> (#[trigger] w@[k])@ == want_w[k],
            decreases out_features - j,
        {
            let mut row: Vec<T> = Vec::new();
            let mut c: usize = 0;
            assert(j * in_features + in_features <= out_features * in_features) by (nonlinear_arith)
                requires
                    j < out_features,
            ;
            while c < in_features
                invariant
                    start + out_features * in_features + out_features <= draws@.len(),
                    n_draws == draws@.len(),
                n_draws == draws@.len(),
                    j * in_features + in_features <= out_features * in_features,
                    want_w == Seq::new(
                        out_features as nat,
                        |j: int|
                            Seq::new(
                                in_features as nat,
                                |c: int| draws@[start + j * in_features + c],
                            ),
                    ),
                    j < out_features,
                    c <= in_features,
                    idx == start + j * in_features + c,
                    row@ == want_w[j as int].subrange(0, c as int),
                decreases in_features - c,
            {
                row.push(draws[idx]);
                idx += 1;
                c += 1;
                assert(row@ =~= want_w[j as int].subrange(0, c as int));
            }
            assert(row@ =~= want_w[j as int]);
            w.push(row);
            j += 1;
            assert(idx == start + j * in_features) by (nonlinear_arith)
                requires
                    idx == start + (j - 1) * in_features + in_features,
            ;
        }
        let weights = Grid { rows: out_features, cols: in_features, data: w };
        assert(weights@ =~~= want_w);
        let ghost want_b = Seq::new(
            out_features as nat,
            |j: int| seq![draws@[start + out_features * in_features + j]],
        );
        let mut b: Vec<Vec<T>> = Vec::new();
        let mut j: usize = 0;
        while j < out_features
            invariant
                start + out_features * in_features + out_features <= draws@.len(),
                n_draws == draws@.len(),
                want_b == Seq::new(
                    out_features as nat,
                    |j: int| seq![draws@[start + out_features * in_features + j]],
                ),
                j <= out_features,
                idx == start + out_features * in_features + j,
                b@.len() == j,
                forall|k: int| 0 <= k < j ==> (#[trigger] b@[k])@ == want_b[k],
            decreases out_features - j,
        {
            let mut row: Vec<T> = Vec::new();
            row.push(draws[idx]);
            assert(row@ =~= want_b[j as int]);
            b.push(row);
            idx += 1;
            j += 1;
        }
        let bias = Grid { rows: out_features, cols: 1, data: b };
        assert(bias@ =~~= want_b);
        LinearLayer { weights, bias, cache: LinearCache::Fresh }
    }

    /// `x · Wᵀ + b`, with nothing cached.
    pub fn get_output(&self, x: &Grid<T>) -> (r: Result<Grid<T>, NetError>)
        requires
            self.wf(),
            x.wf(),
        ensures
            r is Ok <==> x.cols == self.in_features(),
            r is Err ==> r == Err::<Grid<T>, NetError>(NetError::ShapeMismatch),
            r matches Ok(y) ==> y.wf() && y.rows == x.rows && y.cols == self.out_features() && y@
                == self.output_spec(x@),
    {
        if x.cols != self.weights.cols {
            return Err(NetError::ShapeMismatch);
        }
        Ok(self.output_unchecked(x))
    }

    fn output_unchecked(&self, x: &Grid<T>) -> (y: Grid<T>)
        requires
            self.wf(),
            x.wf(),
            x.cols == self.in_features(),
        ensures
            y.wf(),
            y.rows == x.rows,
            y.cols == self.out_features(),
            y@ == self.output_spec(x@),
    {
        let prod = x.times_transposed(&self.weights);
        prod.plus_column(&self.bias)
    }

    /// As `get_output`, and keeps `x` for the next `backward`.
    pub fn forward(&mut self, x: &Grid<T>) -> (r: Result<Grid<T>, NetError>)
        requires
            old(self).wf(),
            x.wf(),
        ensures
            final(self).wf(),
            r is Ok <==> x.cols == old(self).in_features(),
            r is Err ==> r == Err::<Grid<T>, NetError>(NetError::ShapeMismatch) && *final(self)
                == *old(self),
            r matches Ok(y) ==> {
                &&& y.wf()
                &&& y.rows == x.rows
                &&& y.cols == old(self).out_features()
                &&& y@ == old(self).output_spec(x@)
                &&& final(self).weights == old(self).weights
                &&& final(self).bias == old(self).bias
                &&& final(self).cache matches LinearCache::Forwarded { input } && input.rows == x.rows
                    && input.cols == x.cols && input@ == x@
            },
    {
        if x.cols != self.weights.cols {
            return Err(NetError::ShapeMismatch);
        }
        let y = self.output_unchecked(x);
        self.cache = LinearCache::Forwarded { input: x.copy() };
        Ok(y)
    }

    /// Computes and keeps the gradients of the weights and the bias for the
    /// upstream gradient `g`, and returns the gradient of the input `g · W`.
    pub fn backward(&mut self, g: &Grid<T>) -> (r: Result<Grid<T>, NetError>)
        requires
            old(self).wf(),
            g.wf(),
        ensures
            final(self).wf(),
            old(self).cache.is_fresh() ==> r == Err::<Grid<T>, NetError>(
                NetError::BackwardBeforeForward,
            ),
            old(self).cache.cached_input() matches Some(x) ==> (r is Ok <==> (g.rows == x.rows
                && g.cols == old(self).out_features())),
            r is Err ==> *final(self) == *old(self),
            r is Err && !old(self).cache.is_fresh() ==> r == Err::<Grid<T>, NetError>(
                NetError::ShapeMismatch,
            ),
            r matches Ok(dx) ==> {
                let x = old(self).cache.cached_input().unwrap();
                let n_in = old(self).in_features();
                let n_out = old(self).out_features();
                &&& dx.wf()
                &&& dx.rows == g.rows
                &&& dx.cols == n_in
                &&& dx@ == input_gradient(g@, old(self).weights@, n_out, n_in)
                &&& final(self).weights == old(self).weights
                &&& final(self).bias == old(self).bias
                &&& final(self).cache matches LinearCache::BackwardComputed {
                    input,
                    grad_weights,
                    grad_bias,
                } && input == x && grad_weights@ == weight_gradient(
                    g@,
                    x@,
                    n_out,
                    n_in,
                    x.rows as nat,
                ) && grad_bias@ == column_totals(g@, n_out)
            },
    {
        let mut taken = LinearCache::Fresh;
        std::mem::swap(&mut taken, &mut self.cache);
        let input = match taken {
            LinearCache::Fresh => {
                return Err(NetError::BackwardBeforeForward);
            },
            LinearCache::Forwarded { input } => {
                if g.rows != input.rows || g.cols != self.weights.rows {
                    self.cache = LinearCache::Forwarded { input };
                    return Err(NetError::ShapeMismatch);
                }
                input
            },
            LinearCache::BackwardComputed { input, grad_weights, grad_bias } => {
                if g.rows != input.rows || g.cols != self.weights.rows {
                    self.cache = LinearCache::BackwardComputed { input, grad_weights, grad_bias };
                    return Err(NetError::ShapeMismatch);
                }
                input
            },
        };
        let gt = g.transpose();
        let xt = input.transpose();
        let grad_weights = gt.times_transposed(&xt);
        let grad_bias = g.column_totals();
        let wt = self.weights.transpose();
        let dx = g.times_transposed(&wt);
        self.cache = LinearCache::BackwardComputed { input, grad_weights, grad_bias };
        Ok(dx)
    }

    /// Moves the parameters one step against the kept gradients:
    /// `W ← W − rate · ∂W`, `b ← b − rate · ∂b`.
    pub fn sgd(&mut self, rate: T) -> (r: Result<(), NetError>)
        requires
            old(self).wf(),
        ensures
            final(self).wf(),
            r is Ok <==> old(self).cache is BackwardComputed,
            r is Err ==> r == Err::<(), NetError>(NetError::UpdateBeforeBackward) && *final(self)
                == *old(self),
            final(self).cache == old(self).cache,
            final(self).weights.rows == old(self).weights.rows,
            final(self).weights.cols == old(self).weights.cols,
            old(self).cache matches LinearCache::BackwardComputed { grad_weights, grad_bias, .. }
                ==> final(self).weights@ == descent_step(old(self).weights@, grad_weights@, rate)
                && final(self).bias@ == descent_step(old(self).bias@, grad_bias@, rate),
    {
        match &self.cache {
            LinearCache::BackwardComputed { grad_weights, grad_bias, .. } => {
                let w = self.weights.descend(grad_weights, rate);
                let b = self.bias.descend(grad_bias, rate);
                self.weights = w;
                self.bias = b;
                Ok(())
            },
            _ => Err(NetError::UpdateBeforeBackward),
        }
    }
}

} // verus!

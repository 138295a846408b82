use vstd::prelude::*;

use crate::error::NetError;
use crate::grid::{column_totals, descent_step, Grid};
use crate::linear::{
    drawn_bias, drawn_weights, input_gradient, weight_gradient, LinearCache, LinearLayer,
};
use crate::relu::{masked, positivity, rectified, ReLU};
use crate::scalar::Scalar;

verus! {

/// One layer of a network: affine or rectifier.
pub enum CrabNetLayer<T> {
    Linear(LinearLayer<T>),
    Relu(ReLU),
}

impl<T: Scalar> CrabNetLayer<T> {
    pub open spec fn wf(&self) -> bool {
        match self {
            CrabNetLayer::Linear(l) => l.wf(),
            CrabNetLayer::Relu(r) => r.wf(),
        }
    }

    /// The layer takes `w_in` columns and gives `w_out` columns.
    pub open spec fn maps_width(&self, w_in: nat, w_out: nat) -> bool {
        match self {
            CrabNetLayer::Linear(l) => l.in_features() == w_in && l.out_features() == w_out,
            CrabNetLayer::Relu(_) => w_in == w_out,
        }
    }

    /// Nothing is kept from a `forward`.
    pub open spec fn is_fresh(&self) -> bool {
        match self {
            CrabNetLayer::Linear(l) => l.cache.is_fresh(),
            CrabNetLayer::Relu(r) => r.mask is None,
        }
    }

    /// What is kept is from a `forward` on `n` rows of `w_in` columns.
    pub open spec fn holds_batch(&self, n: nat, w_in: nat) -> bool {
        match self {
            CrabNetLayer::Linear(l) => l.cache.cached_input() matches Some(x) && x.rows == n && x.cols
                == w_in,
            CrabNetLayer::Relu(r) => r.mask matches Some(m) && m.rows == n && m.cols == w_in,
        }
    }

    /// The layer has gradients to apply, or has no parameters.
    pub open spec fn update_ready(&self) -> bool {
        match self {
            CrabNetLayer::Linear(l) => l.cache is BackwardComputed,
            CrabNetLayer::Relu(_) => true,
        }
    }

    /// The layer's output for `x`.
    pub open spec fn output_spec(&self, x: Seq<Seq<T>>) -> Seq<Seq<T>> {
        match self {
            CrabNetLayer::Linear(l) => l.output_spec(x),
            CrabNetLayer::Relu(_) => rectified(x),
        }
    }

    /// The gradient with respect to the layer's input, for the upstream
    /// gradient `g` and what the layer keeps.
    pub open spec fn input_gradient_spec(&self, g: Seq<Seq<T>>) -> Seq<Seq<T>> {
        match self {
            CrabNetLayer::Linear(l) => input_gradient(
                g,
                l.weights@,
                l.out_features(),
                l.in_features(),
            ),
            CrabNetLayer::Relu(r) => masked(g, r.mask.unwrap()@),
        }
    }

    /// `after` is `self` once `forward` ran on `x`, of `n` rows and `w` columns.
    pub open spec fn forwarded_to(&self, after: Self, x: Seq<Seq<T>>, n: nat, w: nat) -> bool {
        match (self, after) {
            (CrabNetLayer::Linear(l), CrabNetLayer::Linear(a)) => {
                &&& a.weights == l.weights
                &&& a.bias == l.bias
                &&& a.cache matches LinearCache::Forwarded { input } && input@ == x && input.rows
                    == n && input.cols == w
            },
            (CrabNetLayer::Relu(_), CrabNetLayer::Relu(a)) => {
                a.mask matches Some(m) && m@ == positivity(x) && m.rows == n && m.cols == w
            },
            _ => false,
        }
    }

    /// `after` is `self` once `backward` ran on the upstream gradient `g`.
    pub open spec fn backward_to(&self, after: Self, g: Seq<Seq<T>>) -> bool {
        match (self, after) {
            (CrabNetLayer::Linear(l), CrabNetLayer::Linear(a)) => {
                let x = l.cache.cached_input().unwrap();
                &&& a.weights == l.weights
                &&& a.bias == l.bias
                &&& a.cache matches LinearCache::BackwardComputed {
                    input,
                    grad_weights,
                    grad_bias,
                } && input == x && grad_weights@ == weight_gradient(
                    g,
                    x@,
                    l.out_features(),
                    l.in_features(),
                    x.rows as nat,
                ) && grad_bias@ == column_totals(g, l.out_features())
            },
            (CrabNetLayer::Relu(_), CrabNetLayer::Relu(_)) => after == *self,
            _ => false,
        }
    }

    /// `after` is `self` once its parameters took a step of `rate`.
    pub open spec fn updated_to(&self, after: Self, rate: T) -> bool {
        match (self, after) {
            (CrabNetLayer::Linear(l), CrabNetLayer::Linear(a)) => {
                &&& a.cache == l.cache
                &&& a.weights.rows == l.weights.rows
                &&& a.weights.cols == l.weights.cols
                &&& l.cache matches LinearCache::BackwardComputed { grad_weights, grad_bias, .. }
                    && a.weights@ == descent_step(l.weights@, grad_weights@, rate) && a.bias@
                    == descent_step(l.bias@, grad_bias@, rate)
            },
            (CrabNetLayer::Relu(_), CrabNetLayer::Relu(_)) => after == *self,
            _ => false,
        }
    }

    /// A fresh affine layer of `n_in` inputs and `n_out` outputs whose
    /// parameters were read from `draws` from `start` on.
    pub open spec fn is_drawn_linear(&self, draws: Seq<T>, start: int, n_in: nat, n_out: nat) -> bool {
        match self {
            CrabNetLayer::Linear(l) => {
                &&& l.cache.is_fresh()
                &&& l.weights.cols == n_in
                &&& l.weights.rows == n_out
                &&& l.weights@ == drawn_weights(draws, start, n_in, n_out)
                &&& l.bias@ == drawn_bias(draws, start, n_in, n_out)
            },
            CrabNetLayer::Relu(_) => false,
        }
    }

    /// The layer takes inputs of `w` columns.
    pub open spec fn accepts(&self, w: nat) -> bool {
        match self {
            CrabNetLayer::Linear(l) => l.in_features() == w,
            CrabNetLayer::Relu(_) => true,
        }
    }

    /// The width of the layer's output for an input of `w` columns.
    pub open spec fn out_width(&self, w: nat) -> nat {
        match self {
            CrabNetLayer::Linear(l) => l.out_features(),
            CrabNetLayer::Relu(_) => w,
        }
    }

    /// The layer's output for `x`, with nothing kept.
    pub fn get_output(&self, x: &Grid<T>) -> (r: Result<Grid<T>, NetError>)
        requires
            self.wf(),
            x.wf(),
        ensures
            r is Ok <==> self.accepts(x.cols as nat),
            r is Err ==> r == Err::<Grid<T>, NetError>(NetError::ShapeMismatch),
            r matches Ok(y) ==> y.wf() && y.rows == x.rows && y.cols == self.out_width(
                x.cols as nat,
            ) && y@ == self.output_spec(x@),
    {
        match self {
            CrabNetLayer::Linear(l) => l.get_output(x),
            CrabNetLayer::Relu(r) => Ok(r.get_output(x)),
        }
    }

    /// The layer's output for `x`; keeps what `backward` needs.
    pub fn forward(&mut self, x: &Grid<T>) -> (r: Result<Grid<T>, NetError>)
        requires
            old(self).wf(),
            x.wf(),
        ensures
            final(self).wf(),
            r is Ok <==> old(self).accepts(x.cols as nat),
            r is Err ==> r == Err::<Grid<T>, NetError>(NetError::ShapeMismatch) && *final(self)
                == *old(self),
            r matches Ok(y) ==> y.wf() && y.rows == x.rows && y.cols == old(self).out_width(
                x.cols as nat,
            ) && y@ == old(self).output_spec(x@) && old(self).forwarded_to(
                *final(self),
                x@,
                x.rows as nat,
                x.cols as nat,
            ),
    {
        match self {
            CrabNetLayer::Linear(l) => l.forward(x),
            CrabNetLayer::Relu(r) => Ok(r.forward(x)),
        }
    }

    /// The gradient with respect to the layer's input for the upstream
    /// gradient `g`; an affine layer keeps its parameter gradients.
    pub fn backward(&mut self, g: &Grid<T>) -> (r: Result<Grid<T>, NetError>)
        requires
            old(self).wf(),
            g.wf(),
        ensures
            final(self).wf(),
            old(self).is_fresh() ==> r == Err::<Grid<T>, NetError>(
                NetError::BackwardBeforeForward,
            ),
            forall|n: nat, w: nat|
                #![trigger old(self).holds_batch(n, w)]
                old(self).holds_batch(n, w) ==> (r is Ok <==> (g.rows == n && g.cols
                    == old(self).out_width(w))),
            r is Err ==> *final(self) == *old(self),
            r is Err && !old(self).is_fresh() ==> r == Err::<Grid<T>, NetError>(
                NetError::ShapeMismatch,
            ),
            r matches Ok(dx) ==> forall|n: nat, w: nat|
                #![trigger old(self).holds_batch(n, w)]
                old(self).holds_batch(n, w) ==> dx.wf() && dx.rows == n && dx.cols == w && dx@
                    == old(self).input_gradient_spec(g@) && old(self).backward_to(
                    *final(self),
                    g@,
                ),
    {
        match self {
            CrabNetLayer::Linear(l) => l.backward(g),
            CrabNetLayer::Relu(r) => r.backward(g),
        }
    }

    /// Applies the kept gradients with step `rate`; a rectifier has nothing
    /// to apply.
    pub fn sgd(&mut self, rate: T) -> (r: Result<(), NetError>)
        requires
            old(self).wf(),
        ensures
            final(self).wf(),
            r is Ok <==> old(self).update_ready(),
            r is Err ==> r == Err::<(), NetError>(NetError::UpdateBeforeBackward) && *final(self)
                == *old(self),
            r is Ok ==> old(self).updated_to(*final(self), rate),
    {
        match self {
            CrabNetLayer::Linear(l) => l.sgd(rate),
            CrabNetLayer::Relu(_) => Ok(()),
        }
    }
}

impl<T: Scalar> CrabNetLayer<T> {
    /// Whether `sgd` would succeed.
    pub fn is_update_ready(&self) -> (r: bool)
        ensures
            r == self.update_ready(),
    {
        match self {
            CrabNetLayer::Linear(l) => match &l.cache {
                LinearCache::BackwardComputed { .. } => true,
                _ => false,
            },
            CrabNetLayer::Relu(_) => true,
        }
    }
}

/// The output of the first `k` layers of `layers` for the input `x`.
pub open spec fn chain<T: Scalar>(layers: Seq<CrabNetLayer<T>>, x: Seq<Seq<T>>, k: nat) -> Seq<
    Seq<T>,
>
    decreases k,
{
    if k == 0 {
        x
    } else {
        layers[k - 1].output_spec(chain(layers, x, (k - 1) as nat))
    }
}

/// The gradient that reaches the input of layer `k` (from above, through
/// layers `k` and up) when `g` is the gradient of the last layer's output.
pub open spec fn back_chain<T: Scalar>(layers: Seq<CrabNetLayer<T>>, g: Seq<Seq<T>>, k: int) -> Seq<
    Seq<T>,
>
    decreases layers.len() - k,
{
    if k >= layers.len() || k < 0 {
        g
    } else {
        layers[k].input_gradient_spec(back_chain(layers, g, k + 1))
    }
}

/// The widths of a network's affine layers: the input width, each hidden
/// width, then the output width.
pub open spec fn layer_dims(n_in: usize, hidden: Seq<usize>, n_out: usize) -> Seq<usize> {
    seq![n_in] + hidden + seq![n_out]
}

/// How many parameters the first `m` affine layers take, each mapping
/// `d[i]` inputs to `d[i + 1]` outputs with `d[i + 1] × d[i]` weights and
/// `d[i + 1]` biases.
pub open spec fn param_offset(d: Seq<usize>, m: nat) -> int
    decreases m,
{
    if m == 0 {
        0
    } else {
        param_offset(d, (m - 1) as nat) + d[m as int] * d[m - 1] + d[m as int]
    }
}

proof fn lemma_param_offset_grows(d: Seq<usize>, a: nat, b: nat)
    requires
        a <= b,
    ensures
        param_offset(d, a) <= param_offset(d, b),
    decreases b,
{
    if a < b {
        lemma_param_offset_grows(d, a, (b - 1) as nat);
        let x = d[b as int] as int;
        let y = d[b - 1] as int;
        assert(x * y >= 0) by (nonlinear_arith)
            requires
                x >= 0,
                y >= 0,
        ;
    }
}

fn layer_dims_of(in_features: usize, hidden_sizes: &Vec<usize>, out_features: usize) -> (d: Vec<
    usize,
>)
    ensures
        d@ == layer_dims(in_features, hidden_sizes@, out_features),
{
    let ghost h = hidden_sizes@;
    let mut dims: Vec<usize> = Vec::new();
    dims.push(in_features);
    let mut i: usize = 0;
    while i < hidden_sizes.len()
        invariant
            h == hidden_sizes@,
            i <= h.len(),
            dims@ == seq![in_features] + h.subrange(0, i as int),
        decreases h.len() - i,
    {
        dims.push(hidden_sizes[i]);
        i += 1;
        assert(dims@ =~= seq![in_features] + h.subrange(0, i as int));
    }
    dims.push(out_features);
    assert(dims@ =~= layer_dims(in_features, h, out_features));
    dims
}

/// How many parameters a network of these widths has (see `NN::new`), or
/// `None` where that number does not fit in a `usize`.
pub fn parameter_count(in_features: usize, hidden_sizes: &Vec<usize>, out_features: usize) -> (r:
    Option<usize>)
    ensures
        ({
            let d = layer_dims(in_features, hidden_sizes@, out_features);
            let total = param_offset(d, (d.len() - 1) as nat);
            &&& r is Some <==> total <= usize::MAX
            &&& r matches Some(c) ==> c == total
        }),
{
    let ghost d = layer_dims(in_features, hidden_sizes@, out_features);
    let dims = layer_dims_of(in_features, hidden_sizes, out_features);
    let n_linear = dims.len() - 1;
    let mut total: usize = 0;
    let mut m: usize = 0;
    while m < n_linear
        invariant
            d == layer_dims(in_features, hidden_sizes@, out_features),
            dims@ == d,
            n_linear == d.len() - 1,
            m <= n_linear,
            total == param_offset(d, m as nat),
        decreases n_linear - m,
    {
        let w_in = dims[m];
        let w_out = dims[m + 1];
        proof {
            lemma_param_offset_grows(d, (m + 1) as nat, n_linear as nat);
        }
        let step = match w_out.checked_mul(w_in) {
            Some(p) => p.checked_add(w_out),
            None => None,
        };
        let next = match step {
            Some(s) => total.checked_add(s),
            None => None,
        };
        match next {
            Some(t) => {
                total = t;
            },
            None => {
                proof {
                    let prod = w_out as int * w_in as int;
                    assert(prod >= 0) by (nonlinear_arith)
                        requires
                            w_out >= 0,
                            w_in >= 0,
                            prod == w_out as int * w_in as int,
                    ;
                    assert(param_offset(d, (m + 1) as nat) == total + prod + w_out);
                }
                return None;
            },
        }
        m += 1;
    }
    Some(total)
}

/// A network: a chain of layers, each fed the output of the one before.
pub struct NN<T> {
    pub layers: Vec<CrabNetLayer<T>>,
    /// `widths[k]` is the number of columns that enter layer `k`; the last
    /// entry is the width of the network's output.
    pub widths: Vec<usize>,
    /// The number of rows of the last `forward`, where there was one.
    pub batch: Option<usize>,
}

impl<T: Scalar> NN<T> {
    pub open spec fn wf(&self) -> bool {
        let ls = self.layers@;
        let ws = self.widths@;
        &&& ws.len() == ls.len() + 1
        &&& forall|k: int|
            0 <= k < ls.len() ==> (#[trigger] ls[k]).wf() && ls[k].maps_width(
                ws[k] as nat,
                ws[k + 1] as nat,
            )
        &&& match self.batch {
            None => forall|k: int| 0 <= k < ls.len() ==> (#[trigger] ls[k]).is_fresh(),
            Some(n) => forall|k: int|
                0 <= k < ls.len() ==> (#[trigger] ls[k]).holds_batch(n as nat, ws[k] as nat),
        }
    }

    pub open spec fn in_features(&self) -> nat {
        self.widths@[0] as nat
    }

    pub open spec fn out_features(&self) -> nat {
        self.widths@.last() as nat
    }

    /// What `get_output` and `forward` give for `x`.
    pub open spec fn output_spec(&self, x: Seq<Seq<T>>) -> Seq<Seq<T>> {
        chain(self.layers@, x, self.layers@.len())
    }

    /// The network's output for `x`, through every layer in order, with
    /// nothing kept.
    pub fn get_output(&self, x: &Grid<T>) -> (r: Result<Grid<T>, NetError>)
        requires
            self.wf(),
            x.wf(),
        ensures
            r is Ok <==> x.cols == self.in_features(),
            r is Err ==> r == Err::<Grid<T>, NetError>(NetError::ShapeMismatch),
            r matches Ok(y) ==> y.wf() && y.rows == x.rows && y.cols == self.out_features() && y@
                == self.output_spec(x@),
    {
        if x.cols != self.widths[0] {
            return Err(NetError::ShapeMismatch);
        }
        let mut cur = x.copy();
        let mut k: usize = 0;
        while k < self.layers.len()
            invariant
                self.wf(),
                x.wf(),
                k <= self.layers@.len(),
                cur.wf(),
                cur.rows == x.rows,
                cur.cols == self.widths@[k as int],
                cur@ == chain(self.layers@, x@, k as nat),
            decreases self.layers@.len() - k,
        {
            assert(self.layers@[k as int].wf());
            match self.layers[k].get_output(&cur) {
                Ok(y) => {
                    cur = y;
                },
                Err(e) => {
                    return Err(e);
                },
            }
            k += 1;
        }
        Ok(cur)
    }

    /// The network's output for `x`, through every layer in order; every
    /// layer keeps what its `backward` needs.
    pub fn forward(&mut self, x: &Grid<T>) -> (r: Result<Grid<T>, NetError>)
        requires
            old(self).wf(),
            x.wf(),
        ensures
            final(self).wf(),
            r is Ok <==> x.cols == old(self).in_features(),
            r is Err ==> r == Err::<Grid<T>, NetError>(NetError::ShapeMismatch) && *final(self)
                == *old(self),
            r matches Ok(y) ==> {
                &&& y.wf()
                &&& y.rows == x.rows
                &&& y.cols == old(self).out_features()
                &&& y@ == old(self).output_spec(x@)
                &&& final(self).widths == old(self).widths
                &&& final(self).batch == Some(x.rows)
                &&& final(self).layers@.len() == old(self).layers@.len()
                &&& forall|k: int|
                    0 <= k < old(self).layers@.len() ==> (#[trigger] old(self).layers@[k]).forwarded_to(
                        final(self).layers@[k],
                        chain(old(self).layers@, x@, k as nat),
                        x.rows as nat,
                        old(self).widths@[k] as nat,
                    )
            },
    {
        if x.cols != self.widths[0] {
            return Err(NetError::ShapeMismatch);
        }
        let ghost before = self.layers@;
        let mut cur = x.copy();
        let mut k: usize = 0;
        while k < self.layers.len()
            invariant
                x.wf(),
                self.widths == old(self).widths,
                before == old(self).layers@,
                self.widths@.len() == before.len() + 1,
                self.layers@.len() == before.len(),
                forall|j: int|
                    0 <= j < before.len() ==> (#[trigger] before[j]).wf() && before[j].maps_width(
                        self.widths@[j] as nat,
                        self.widths@[j + 1] as nat,
                    ),
                k <= before.len(),
                cur.wf(),
                cur.rows == x.rows,
                cur.cols == self.widths@[k as int],
                cur@ == chain(before, x@, k as nat),
                forall|j: int| k <= j < before.len() ==> self.layers@[j] == #[trigger] before[j],
                forall|j: int|
                    0 <= j < k ==> (#[trigger] self.layers@[j]).wf() && before[j].forwarded_to(
                        self.layers@[j],
                        chain(before, x@, j as nat),
                        x.rows as nat,
                        self.widths@[j] as nat,
                    ),
            decreases before.len() - k,
        {
            assert(before[k as int].wf());
            assert(self.layers@[k as int] == before[k as int]);
            let ghost cur_before = cur@;
            match self.layers[k].forward(&cur) {
                Ok(y) => {
                    cur = y;
                },
                Err(e) => {
                    return Err(e);
                },
            }
            assert(chain(before, x@, (k + 1) as nat) == before[k as int].output_spec(cur_before));
            k += 1;
        }
        self.batch = Some(x.rows);
        assert forall|j: int| 0 <= j < self.layers@.len() implies (#[trigger] self.layers@[j]).wf()
            && self.layers@[j].maps_width(self.widths@[j] as nat, self.widths@[j + 1] as nat)
            && self.layers@[j].holds_batch(x.rows as nat, self.widths@[j] as nat) by {
            assert(before[j].wf());
        }
        Ok(cur)
    }

    /// Sends `g`, the gradient of the loss with respect to the network's
    /// output, through every layer from the last to the first, and returns
    /// the gradient with respect to the network's input.
    pub fn backward(&mut self, g: &Grid<T>) -> (r: Result<Grid<T>, NetError>)
        requires
            old(self).wf(),
            g.wf(),
        ensures
            final(self).wf(),
            old(self).batch is None ==> r == Err::<Grid<T>, NetError>(
                NetError::BackwardBeforeForward,
            ),
            old(self).batch matches Some(n) ==> (r is Ok <==> (g.rows == n && g.cols == old(
                self,
            ).out_features())),
            r is Err ==> *final(self) == *old(self),
            r is Err && old(self).batch is Some ==> r == Err::<Grid<T>, NetError>(
                NetError::ShapeMismatch,
            ),
            r matches Ok(dx) ==> {
                &&& dx.wf()
                &&& dx.rows == g.rows
                &&& dx.cols == old(self).in_features()
                &&& dx@ == back_chain(old(self).layers@, g@, 0)
                &&& final(self).widths == old(self).widths
                &&& final(self).batch == old(self).batch
                &&& final(self).layers@.len() == old(self).layers@.len()
                &&& forall|k: int|
                    0 <= k < old(self).layers@.len() ==> (#[trigger] old(self).layers@[k]).backward_to(
                        final(self).layers@[k],
                        back_chain(old(self).layers@, g@, k + 1),
                    )
            },
    {
        let n = match self.batch {
            None => {
                return Err(NetError::BackwardBeforeForward);
            },
            Some(n) => n,
        };
        let top = self.layers.len();
        if g.rows != n || g.cols != self.widths[top] {
            return Err(NetError::ShapeMismatch);
        }
        let ghost before = self.layers@;
        let mut cur = g.copy();
        let mut k: usize = top;
        while k > 0
            invariant
                g.wf(),
                self.widths == old(self).widths,
                self.batch == old(self).batch,
                self.batch == Some(n),
                before == old(self).layers@,
                self.widths@.len() == before.len() + 1,
                self.layers@.len() == before.len(),
                forall|j: int|
                    0 <= j < before.len() ==> (#[trigger] before[j]).wf() && before[j].maps_width(
                        self.widths@[j] as nat,
                        self.widths@[j + 1] as nat,
                    ) && before[j].holds_batch(n as nat, self.widths@[j] as nat),
                k <= before.len(),
                cur.wf(),
                cur.rows == n,
                cur.cols == self.widths@[k as int],
                cur@ == back_chain(before, g@, k as int),
                forall|j: int| 0 <= j < k ==> self.layers@[j] == #[trigger] before[j],
                forall|j: int|
                    k <= j < before.len() ==> (#[trigger] self.layers@[j]).wf()
                        && self.layers@[j].maps_width(
                        self.widths@[j] as nat,
                        self.widths@[j + 1] as nat,
                    ) && self.layers@[j].holds_batch(n as nat, self.widths@[j] as nat)
                        && before[j].backward_to(
                        self.layers@[j],
                        back_chain(before, g@, j + 1),
                    ),
            decreases k,
        {
            k -= 1;
            assert(before[k as int].wf());
            assert(self.layers@[k as int] == before[k as int]);
            assert(before[k as int].holds_batch(n as nat, self.widths@[k as int] as nat));
            match self.layers[k].backward(&cur) {
                Ok(d) => {
                    cur = d;
                },
                Err(e) => {
                    return Err(e);
                },
            }
        }
        Ok(cur)
    }

    /// Applies one descent step of `rate` to every layer's parameters. Fails,
    /// changing nothing, unless every affine layer has gradients kept.
    pub fn update(&mut self, rate: T) -> (r: Result<(), NetError>)
        requires
            old(self).wf(),
        ensures
            final(self).wf(),
            r is Ok <==> forall|k: int|
                0 <= k < old(self).layers@.len() ==> (#[trigger] old(self).layers@[k]).update_ready(),
            r is Err ==> r == Err::<(), NetError>(NetError::UpdateBeforeBackward) && *final(self)
                == *old(self),
            r is Ok ==> {
                &&& final(self).widths == old(self).widths
                &&& final(self).batch == old(self).batch
                &&& final(self).layers@.len() == old(self).layers@.len()
                &&& forall|k: int|
                    0 <= k < old(self).layers@.len() ==> (#[trigger] old(self).layers@[k]).updated_to(
                        final(self).layers@[k],
                        rate,
                    )
            },
    {
        let mut k: usize = 0;
        while k < self.layers.len()
            invariant
                *self == *old(self),
                old(self).wf(),
                k <= self.layers@.len(),
                forall|j: int| 0 <= j < k ==> (#[trigger] self.layers@[j]).update_ready(),
            decreases self.layers@.len() - k,
        {
            if !self.layers[k].is_update_ready() {
                return Err(NetError::UpdateBeforeBackward);
            }
            k += 1;
        }
        let ghost before = self.layers@;
        let mut k: usize = 0;
        while k < self.layers.len()
            invariant
                self.widths == old(self).widths,
                self.batch == old(self).batch,
                before == old(self).layers@,
                self.widths@.len() == before.len() + 1,
                self.layers@.len() == before.len(),
                forall|j: int| 0 <= j < before.len() ==> (#[trigger] before[j]).update_ready(),
                forall|j: int|
                    0 <= j < before.len() ==> (#[trigger] before[j]).wf() && before[j].maps_width(
                        self.widths@[j] as nat,
                        self.widths@[j + 1] as nat,
                    ),
                k <= before.len(),
                forall|j: int| k <= j < before.len() ==> self.layers@[j] == #[trigger] before[j],
                forall|j: int|
                    0 <= j < k ==> (#[trigger] self.layers@[j]).wf() && before[j].updated_to(
                        self.layers@[j],
                        rate,
                    ),
            decreases before.len() - k,
        {
            assert(before[k as int].wf());
            assert(self.layers@[k as int] == before[k as int]);
            let _ = self.layers[k].sgd(rate);
            k += 1;
        }
        assert forall|j: int| 0 <= j < self.layers@.len() implies (#[trigger] self.layers@[j]).wf()
            && self.layers@[j].maps_width(self.widths@[j] as nat, self.widths@[j + 1] as nat)
            && (match self.batch {
            None => self.layers@[j].is_fresh(),
            Some(n) => self.layers@[j].holds_batch(n as nat, self.widths@[j] as nat),
        }) by {
            assert(before[j].wf());
            assert(old(self).layers@[j] == before[j]);
        }
        Ok(())
    }
}

impl<T: Scalar> NN<T> {
    /// A fresh network of `in_features` inputs and `out_features` outputs,
    /// with one hidden layer of each width in `hidden_sizes`: affine and
    /// rectifier layers alternate, and the last layer is affine. The
    /// parameters are read from `draws` in order, layer by layer, each
    /// layer's weights row by row and then its bias; `draws` must hold
    /// exactly as many values as there are parameters.
    pub fn new(in_features: usize, hidden_sizes: Vec<usize>, out_features: usize, draws: &Vec<T>) -> (r:
        Result<NN<T>, NetError>)
        ensures
            ({
                let d = layer_dims(in_features, hidden_sizes@, out_features);
                &&& r is Ok <==> draws@.len() == param_offset(d, (d.len() - 1) as nat)
                &&& r is Err ==> r == Err::<NN<T>, NetError>(NetError::ShapeMismatch)
                &&& r matches Ok(nn) ==> {
                    &&& nn.wf()
                    &&& nn.batch is None
                    &&& nn.layers@.len() == 2 * hidden_sizes@.len() + 1
                    &&& forall|k: int|
                        0 <= k <= nn.layers@.len() ==> #[trigger] nn.widths@[k] == d[(k + 1) / 2]
                    &&& forall|k: int|
                        0 <= k < nn.layers@.len() && k % 2 == 1 ==> (#[trigger] nn.layers@[k]) is Relu
                    &&& forall|k: int|
                        0 <= k < nn.layers@.len() && k % 2 == 0 ==> (#[trigger] nn.layers@[k]).is_drawn_linear(
                            draws@,
                            param_offset(d, (k / 2) as nat),
                            d[k / 2] as nat,
                            d[k / 2 + 1] as nat,
                        )
                }
            }),
    {
        let ghost h = hidden_sizes@;
        let ghost d = layer_dims(in_features, h, out_features);
        let dims = layer_dims_of(in_features, &hidden_sizes, out_features);
        let n_linear = dims.len() - 1;
        let n_draws = draws.len();
        let total = match parameter_count(in_features, &hidden_sizes, out_features) {
            Some(t) => t,
            None => {
                return Err(NetError::ShapeMismatch);
            },
        };
        if total != n_draws {
            return Err(NetError::ShapeMismatch);
        }
        let mut layers: Vec<CrabNetLayer<T>> = Vec::new();
        let mut widths: Vec<usize> = Vec::new();
        let mut offset: usize = 0;
        let mut m: usize = 0;
        while m < n_linear
            invariant
                h == hidden_sizes@,
                d == layer_dims(in_features, h, out_features),
                dims@ == d,
                n_linear == d.len() - 1,
                n_linear == h.len() + 1,
                total == param_offset(d, n_linear as nat),
                total == draws@.len(),
                m <= n_linear,
                offset == param_offset(d, m as nat),
                layers@.len() == if m == 0 { 0 } else { 2 * m - 1 },
                widths@.len() == layers@.len(),
                forall|k: int| 0 <= k < widths@.len() ==> #[trigger] widths@[k] == d[(k + 1) / 2],
                forall|k: int|
                    0 <= k < layers@.len() ==> (#[trigger] layers@[k]).wf() && layers@[k].is_fresh(),
                forall|k: int|
                    0 <= k < layers@.len() && k % 2 == 1 ==> (#[trigger] layers@[k]) is Relu,
                forall|k: int|
                    0 <= k < layers@.len() && k % 2 == 0 ==> (#[trigger] layers@[k]).is_drawn_linear(
                        draws@,
                        param_offset(d, (k / 2) as nat),
                        d[k / 2] as nat,
                        d[k / 2 + 1] as nat,
                    ),
            decreases n_linear - m,
        {
            let w_in = dims[m];
            let w_out = dims[m + 1];
            proof {
                lemma_param_offset_grows(d, (m + 1) as nat, n_linear as nat);
            }
            if m > 0 {
                layers.push(CrabNetLayer::Relu(ReLU::new()));
                widths.push(w_in);
            }
            let ghost at = layers@.len();
            assert(at == 2 * m);
            layers.push(CrabNetLayer::Linear(LinearLayer::new(w_in, w_out, draws, offset)));
            widths.push(w_in);
            offset = offset + w_out * w_in + w_out;
            m += 1;
        }
        widths.push(out_features);
        let nn = NN { layers, widths, batch: None };
        assert forall|k: int| 0 <= k < nn.layers@.len() implies (#[trigger] nn.layers@[k]).wf()
            && nn.layers@[k].maps_width(nn.widths@[k] as nat, nn.widths@[k + 1] as nat) by {
            assert(nn.widths@[k] == d[(k + 1) / 2]);
            assert(nn.widths@[k + 1] == d[(k + 2) / 2]);
        }
        Ok(nn)
    }
}

/// `a` and `b` are layers of one kind with equal parameters, whatever
/// either keeps from earlier calls.
pub open spec fn same_parameters<T>(a: CrabNetLayer<T>, b: CrabNetLayer<T>) -> bool {
    match (a, b) {
        (CrabNetLayer::Linear(la), CrabNetLayer::Linear(lb)) => la.weights == lb.weights && la.bias
            == lb.bias,
        (CrabNetLayer::Relu(_), CrabNetLayer::Relu(_)) => true,
        _ => false,
    }
}

/// `a` and `b` hold equal parameter gradients, or are both rectifiers.
pub open spec fn same_gradients<T>(a: CrabNetLayer<T>, b: CrabNetLayer<T>) -> bool {
    match (a, b) {
        (CrabNetLayer::Linear(la), CrabNetLayer::Linear(lb)) => match (la.cache, lb.cache) {
            (
                LinearCache::BackwardComputed { grad_weights: wa, grad_bias: ba, .. },
                LinearCache::BackwardComputed { grad_weights: wb, grad_bias: bb, .. },
            ) => wa@ == wb@ && ba@ == bb@,
            _ => false,
        },
        (CrabNetLayer::Relu(_), CrabNetLayer::Relu(_)) => true,
        _ => false,
    }
}

proof fn lemma_chain_follows_parameters<T: Scalar>(
    a: Seq<CrabNetLayer<T>>,
    b: Seq<CrabNetLayer<T>>,
    x: Seq<Seq<T>>,
    k: nat,
)
    requires
        a.len() == b.len(),
        k <= a.len(),
        forall|j: int| 0 <= j < a.len() ==> same_parameters(#[trigger] a[j], b[j]),
    ensures
        chain(a, x, k) == chain(b, x, k),
    decreases k,
{
    if k > 0 {
        lemma_chain_follows_parameters(a, b, x, (k - 1) as nat);
        assert(same_parameters(a[k - 1], b[k - 1]));
    }
}

proof fn lemma_back_chain_follows_state<T: Scalar>(
    a: Seq<CrabNetLayer<T>>,
    b: Seq<CrabNetLayer<T>>,
    g: Seq<Seq<T>>,
    k: int,
)
    requires
        a.len() == b.len(),
        0 <= k <= a.len(),
        forall|j: int, h: Seq<Seq<T>>|
            0 <= j < a.len() ==> (#[trigger] a[j].input_gradient_spec(h)) == b[j].input_gradient_spec(h),
    ensures
        back_chain(a, g, k) == back_chain(b, g, k),
    decreases a.len() - k,
{
    if k < a.len() {
        lemma_back_chain_follows_state(a, b, g, k + 1);
        let h = back_chain(a, g, k + 1);
        assert(a[k].input_gradient_spec(h) == b[k].input_gradient_spec(h));
    }
}

/// The gradients that a training step leaves depend only on the
/// parameters, the batch and the upstream gradient: two chains of layers
/// with equal parameters, whatever each kept from earlier calls (inference
/// calls keep nothing), hold equal gradients once each has run `forward`
/// on `x` and then `backward` on `g`.
pub proof fn law_gradients_ignore_earlier_calls<T: Scalar>(
    a0: Seq<CrabNetLayer<T>>,
    a1: Seq<CrabNetLayer<T>>,
    a2: Seq<CrabNetLayer<T>>,
    b0: Seq<CrabNetLayer<T>>,
    b1: Seq<CrabNetLayer<T>>,
    b2: Seq<CrabNetLayer<T>>,
    widths: Seq<usize>,
    x: Seq<Seq<T>>,
    n: nat,
    g: Seq<Seq<T>>,
)
    requires
        a0.len() == a1.len() && a1.len() == a2.len(),
        b0.len() == a0.len() && b1.len() == a0.len() && b2.len() == a0.len(),
        forall|k: int| 0 <= k < a0.len() ==> same_parameters(#[trigger] a0[k], b0[k]),
        forall|k: int|
            0 <= k < a0.len() ==> (#[trigger] a0[k]).forwarded_to(
                a1[k],
                chain(a0, x, k as nat),
                n,
                widths[k] as nat,
            ) && b0[k].forwarded_to(b1[k], chain(b0, x, k as nat), n, widths[k] as nat),
        forall|k: int|
            0 <= k < a0.len() ==> (#[trigger] a1[k]).backward_to(a2[k], back_chain(a1, g, k + 1))
                && b1[k].backward_to(b2[k], back_chain(b1, g, k + 1)),
    ensures
        forall|k: int| 0 <= k < a0.len() ==> same_gradients(#[trigger] a2[k], b2[k]),
{
    assert forall|j: int, h: Seq<Seq<T>>| 0 <= j < a1.len() implies (#[trigger] a1[j].input_gradient_spec(
        h,
    )) == b1[j].input_gradient_spec(h) by {
        assert(same_parameters(a0[j], b0[j]));
        lemma_chain_follows_parameters(a0, b0, x, j as nat);
        assert(a0[j].forwarded_to(a1[j], chain(a0, x, j as nat), n, widths[j] as nat));
    }
    assert forall|k: int| 0 <= k < a0.len() implies same_gradients(#[trigger] a2[k], b2[k]) by {
        assert(same_parameters(a0[k], b0[k]));
        lemma_chain_follows_parameters(a0, b0, x, k as nat);
        assert(a0[k].forwarded_to(a1[k], chain(a0, x, k as nat), n, widths[k] as nat));
        assert(a1[k].backward_to(a2[k], back_chain(a1, g, k + 1)));
        lemma_back_chain_follows_state(a1, b1, g, k + 1);
    }
}

} // verus!

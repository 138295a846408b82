use crabnn::error::NetError;
use crabnn::grid::Grid;
use crabnn::linear::{LinearCache, LinearLayer};
use crabnn::mse::MSE;
use crabnn::nn::{parameter_count, CrabNetLayer, NN};
use crabnn::relu::ReLU;
use crabnn::scalar::Scalar;

#[derive(Clone, Copy, Debug, PartialEq)]
struct F(f64);

impl Scalar for F {
    fn zero_spec() -> F {
        F(0.0)
    }
    fn add_spec(a: F, b: F) -> F {
        F(a.0 + b.0)
    }
    fn sub_spec(a: F, b: F) -> F {
        F(a.0 - b.0)
    }
    fn mul_spec(a: F, b: F) -> F {
        F(a.0 * b.0)
    }
    fn div_spec(a: F, b: F) -> F {
        F(a.0 / b.0)
    }
    fn count_spec(n: usize) -> F {
        F(n as f64)
    }
    fn positive_spec(a: F) -> bool {
        a.0 > 0.0
    }
    fn zero() -> F {
        F(0.0)
    }
    fn plus(self, o: F) -> F {
        F(self.0 + o.0)
    }
    fn minus(self, o: F) -> F {
        F(self.0 - o.0)
    }
    fn times(self, o: F) -> F {
        F(self.0 * o.0)
    }
    fn divided_by(self, o: F) -> F {
        F(self.0 / o.0)
    }
    fn count(n: usize) -> F {
        F(n as f64)
    }
    fn is_positive(self) -> bool {
        self.0 > 0.0
    }
}

fn grid(rows: Vec<Vec<f64>>, cols: usize) -> Grid<F> {
    let data = rows.into_iter().map(|r| r.into_iter().map(F).collect()).collect();
    Grid::from_rows(data, cols).unwrap()
}

fn values(g: &Grid<F>) -> Vec<Vec<f64>> {
    (0..g.rows()).map(|i| (0..g.cols()).map(|j| g.get(i, j).0).collect()).collect()
}

fn close(a: &[Vec<f64>], b: &[Vec<f64>], tol: f64) -> bool {
    a.len() == b.len()
        && a.iter().zip(b).all(|(r, s)| r.len() == s.len() && r.iter().zip(s).all(|(u, v)| (u - v).abs() <= tol))
}

fn layer(w: Vec<Vec<f64>>, b: Vec<f64>) -> LinearLayer<F> {
    let cols = w[0].len();
    let bias = b.into_iter().map(|v| vec![v]).collect();
    LinearLayer::from_parameters(grid(w, cols), grid(bias, 1)).unwrap()
}

fn grads(l: &LinearLayer<F>) -> (Vec<Vec<f64>>, Vec<Vec<f64>>) {
    match &l.cache {
        LinearCache::BackwardComputed { grad_weights, grad_bias, .. } => (values(grad_weights), values(grad_bias)),
        _ => panic!("no gradients kept"),
    }
}

#[test]
fn affine_forward_matches_formula() {
    let mut l = layer(vec![vec![1.0, 2.0], vec![3.0, 4.0], vec![5.0, 6.0]], vec![0.5, -1.0, 2.0]);
    let x = grid(vec![vec![1.0, -1.0], vec![2.0, 0.5]], 2);
    let y = l.forward(&x).unwrap();
    assert_eq!((y.rows(), y.cols()), (2, 3));
    let want = vec![vec![-0.5, -2.0, 1.0], vec![3.5, 7.0, 15.0]];
    assert!(close(&values(&y), &want, 1e-12));
    assert!(close(&values(&l.get_output(&x).unwrap()), &want, 1e-12));
}

#[test]
fn affine_forward_rejects_wrong_width() {
    let mut l = layer(vec![vec![1.0, 2.0]], vec![0.0]);
    let x = grid(vec![vec![1.0, 2.0, 3.0]], 3);
    assert_eq!(l.forward(&x).err(), Some(NetError::ShapeMismatch));
    assert!(matches!(l.cache, LinearCache::Fresh));
}

// L(W, b, x) = sum of g ⊙ (x·Wᵀ + b), so its gradients are those that
// `backward` computes for the upstream gradient g.
fn weighted_output(w: &[Vec<f64>], b: &[f64], x: &[Vec<f64>], g: &[Vec<f64>]) -> f64 {
    let mut total = 0.0;
    for i in 0..x.len() {
        for j in 0..w.len() {
            let mut y = b[j];
            for k in 0..x[i].len() {
                y += x[i][k] * w[j][k];
            }
            total += g[i][j] * y;
        }
    }
    total
}

#[test]
fn affine_gradients_match_finite_differences() {
    let w = vec![vec![0.3, -0.7], vec![1.1, 0.2], vec![-0.4, 0.9]];
    let b = vec![0.05, -0.3, 0.8];
    let x = vec![vec![0.6, -1.2], vec![1.5, 0.4]];
    let g = vec![vec![0.2, -0.5, 1.0], vec![-0.8, 0.3, 0.6]];
    let mut l = layer(w.clone(), b.clone());
    l.forward(&grid(x.clone(), 2)).unwrap();
    let dx = values(&l.backward(&grid(g.clone(), 3)).unwrap());
    let (dw, db) = grads(&l);
    let h = 1e-6;
    for j in 0..3 {
        for k in 0..2 {
            let mut up = w.clone();
            up[j][k] += h;
            let mut down = w.clone();
            down[j][k] -= h;
            let num = (weighted_output(&up, &b, &x, &g) - weighted_output(&down, &b, &x, &g)) / (2.0 * h);
            assert!((num - dw[j][k]).abs() < 1e-4);
        }
        let mut up = b.clone();
        up[j] += h;
        let mut down = b.clone();
        down[j] -= h;
        let num = (weighted_output(&w, &up, &x, &g) - weighted_output(&w, &down, &x, &g)) / (2.0 * h);
        assert!((num - db[j][0]).abs() < 1e-4);
    }
    for i in 0..2 {
        for k in 0..2 {
            let mut up = x.clone();
            up[i][k] += h;
            let mut down = x.clone();
            down[i][k] -= h;
            let num = (weighted_output(&w, &b, &up, &g) - weighted_output(&w, &b, &down, &g)) / (2.0 * h);
            assert!((num - dx[i][k]).abs() < 1e-4);
        }
    }
}

#[test]
fn relu_backward_masks_nonpositive_inputs() {
    let mut r = ReLU::new();
    let x = grid(vec![vec![-1.0, 0.0, 2.0], vec![0.5, -0.0, -3.0]], 3);
    let y = r.forward(&x);
    assert_eq!(values(&y), vec![vec![0.0, 0.0, 2.0], vec![0.5, 0.0, 0.0]]);
    let g = grid(vec![vec![5.0, 6.0, 7.0], vec![8.0, 9.0, 10.0]], 3);
    let d = r.backward(&g).unwrap();
    assert_eq!(values(&d), vec![vec![0.0, 0.0, 7.0], vec![8.0, 0.0, 0.0]]);
}

#[test]
fn relu_backward_rejects_other_shape() {
    let mut r = ReLU::new();
    r.forward(&grid(vec![vec![1.0, 2.0]], 2));
    let g = grid(vec![vec![1.0], vec![2.0]], 1);
    assert_eq!(r.backward(&g).err(), Some(NetError::ShapeMismatch));
}

#[test]
fn mse_of_exact_prediction_is_zero() {
    let p = grid(vec![vec![0.25, -3.0], vec![7.5, 1e-3], vec![0.0, 42.0]], 2);
    let t = grid(vec![vec![0.25, -3.0], vec![7.5, 1e-3], vec![0.0, 42.0]], 2);
    let mut loss = MSE::new();
    assert_eq!(loss.forward(&p, &t).unwrap(), F(0.0));
    let g = loss.backward().unwrap();
    assert_eq!((g.rows(), g.cols()), (3, 2));
    assert!(values(&g).iter().flatten().all(|v| *v == 0.0));
}

#[test]
fn mse_value_and_gradient() {
    let p = grid(vec![vec![1.0], vec![3.0]], 1);
    let t = grid(vec![vec![0.0], vec![1.0]], 1);
    let mut loss = MSE::new();
    assert_eq!(loss.forward(&p, &t).unwrap(), F(2.5));
    assert_eq!(values(&loss.backward().unwrap()), vec![vec![1.0], vec![2.0]]);
}

#[test]
fn mse_rejects_mismatched_target() {
    let p = grid(vec![vec![1.0], vec![3.0]], 1);
    let t = grid(vec![vec![0.0, 1.0]], 2);
    let mut loss = MSE::new();
    assert_eq!(loss.forward(&p, &t).err(), Some(NetError::ShapeMismatch));
    assert_eq!(loss.backward().err(), Some(NetError::BackwardBeforeForward));
}

fn small_net() -> NN<F> {
    let draws: Vec<F> = [
        0.1, 0.2, -0.3, 0.4, 0.5, -0.6, 0.7, 0.8, 0.1, 0.2, -0.3, 0.0, 0.3, -0.2, 0.5, 0.1, 0.05,
    ]
    .iter()
    .map(|v| F(*v))
    .collect();
    NN::new(2, vec![4], 1, &draws).unwrap()
}

fn linear_at(nn: &NN<F>, k: usize) -> &LinearLayer<F> {
    match &nn.layers[k] {
        CrabNetLayer::Linear(l) => l,
        CrabNetLayer::Relu(_) => panic!("not an affine layer"),
    }
}

#[test]
fn network_layout_follows_widths() {
    let draws: Vec<F> = (0..(8 * 2 + 8 + 8 * 8 + 8 + 8 + 1)).map(|i| F(i as f64)).collect();
    let nn = NN::new(2, vec![8, 8], 1, &draws).unwrap();
    assert_eq!(nn.layers.len(), 5);
    assert_eq!(nn.widths, vec![2, 8, 8, 8, 8, 1]);
    assert!(matches!(nn.layers[1], CrabNetLayer::Relu(_)));
    assert!(matches!(nn.layers[3], CrabNetLayer::Relu(_)));
    let first = linear_at(&nn, 0);
    assert_eq!((first.weights.rows(), first.weights.cols()), (8, 2));
    assert_eq!(first.weights.get(1, 0), F(2.0));
    assert_eq!(first.bias.get(0, 0), F(16.0));
    let second = linear_at(&nn, 2);
    assert_eq!(second.weights.get(0, 0), F(24.0));
    let last = linear_at(&nn, 4);
    assert_eq!((last.weights.rows(), last.weights.cols()), (1, 8));
    assert_eq!(last.bias.get(0, 0), F(104.0));
}

#[test]
fn network_rejects_wrong_number_of_draws() {
    let draws: Vec<F> = vec![F(0.5); 16];
    assert_eq!(NN::new(2, vec![4], 1, &draws).err(), Some(NetError::ShapeMismatch));
    let draws: Vec<F> = vec![F(0.5); 18];
    assert_eq!(NN::new(2, vec![4], 1, &draws).err(), Some(NetError::ShapeMismatch));
}

#[test]
fn one_training_step_reproduces_known_values() {
    let mut nn = small_net();
    let x = grid(vec![vec![1.0, 2.0], vec![-1.0, 0.5], vec![0.5, -1.5]], 2);
    let t = grid(vec![vec![1.0], vec![0.0], vec![0.5]], 1);
    let y = nn.forward(&x).unwrap();
    assert_eq!(values(&y), vec![vec![0.32], vec![-0.059999999999999984], vec![0.4749999999999999]]);
    let mut loss = MSE::new();
    assert_eq!(loss.forward(&y, &t).unwrap(), F(0.15554166666666663));
    let g = loss.backward().unwrap();
    let dx = nn.backward(&g).unwrap();
    assert_eq!(
        values(&dx),
        vec![
            vec![-0.07253333333333334, -0.0272],
            vec![-0.003599999999999999, 0.0008000000000000004],
            vec![-0.00416666666666668, 0.005000000000000016]
        ]
    );
    nn.update(F(0.1)).unwrap();
    let first = linear_at(&nn, 0);
    assert_eq!(
        values(&first.weights),
        vec![
            vec![0.1124, 0.2278],
            vec![-0.30826666666666663, 0.3814666666666667],
            vec![0.5004166666666666, -0.60125],
            vec![0.7045333333333332, 0.8090666666666667]
        ]
    );
    assert_eq!(
        values(&first.bias),
        vec![vec![0.1148], vec![0.19013333333333335], vec![-0.29916666666666664], vec![0.004533333333333334]]
    );
    let last = linear_at(&nn, 2);
    assert_eq!(
        values(&last.weights),
        vec![vec![0.3276, -0.16546666666666668, 0.5014166666666666, 0.20426666666666668]]
    );
    assert_eq!(values(&last.bias), vec![vec![0.101]]);
}

#[test]
fn backward_before_forward_fails_everywhere() {
    let mut l = layer(vec![vec![1.0, 2.0]], vec![0.0]);
    let g = grid(vec![vec![1.0]], 1);
    assert_eq!(l.backward(&g).err(), Some(NetError::BackwardBeforeForward));
    let r = ReLU::new();
    assert_eq!(r.backward(&g).err(), Some(NetError::BackwardBeforeForward));
    let loss: MSE<F> = MSE::new();
    assert_eq!(loss.backward().err(), Some(NetError::BackwardBeforeForward));
    let mut nn = small_net();
    assert_eq!(nn.backward(&g).err(), Some(NetError::BackwardBeforeForward));
    let mut as_layer = CrabNetLayer::Relu(ReLU::new());
    assert_eq!(as_layer.backward(&g).err(), Some(NetError::BackwardBeforeForward));
}

#[test]
fn update_before_backward_fails() {
    let mut l = layer(vec![vec![1.0, 2.0]], vec![0.0]);
    assert_eq!(l.sgd(F(0.1)).err(), Some(NetError::UpdateBeforeBackward));
    l.forward(&grid(vec![vec![1.0, 1.0]], 2)).unwrap();
    assert_eq!(l.sgd(F(0.1)).err(), Some(NetError::UpdateBeforeBackward));
    let mut nn = small_net();
    nn.forward(&grid(vec![vec![1.0, 1.0]], 2)).unwrap();
    assert_eq!(nn.update(F(0.1)).err(), Some(NetError::UpdateBeforeBackward));
    assert_eq!(values(&linear_at(&nn, 0).weights)[0], vec![0.1, 0.2]);
}

#[test]
fn network_backward_rejects_wrong_batch() {
    let mut nn = small_net();
    nn.forward(&grid(vec![vec![1.0, 1.0], vec![2.0, 0.0]], 2)).unwrap();
    let g = grid(vec![vec![1.0]], 1);
    assert_eq!(nn.backward(&g).err(), Some(NetError::ShapeMismatch));
    assert_eq!(nn.forward(&grid(vec![vec![1.0]], 1)).err(), Some(NetError::ShapeMismatch));
}

#[test]
fn inference_does_not_disturb_training() {
    let x = grid(vec![vec![1.0, 2.0], vec![-1.0, 0.5], vec![0.5, -1.5]], 2);
    let g = grid(vec![vec![0.3], vec![-0.2], vec![0.7]], 1);
    let mut plain = small_net();
    plain.forward(&x).unwrap();
    let d_plain = values(&plain.backward(&g).unwrap());
    let mut probed = small_net();
    let probe = grid(vec![vec![3.0, -4.0]], 2);
    let a = values(&probed.get_output(&probe).unwrap());
    let b = values(&probed.get_output(&probe).unwrap());
    assert_eq!(a, b);
    let y = probed.forward(&x).unwrap();
    assert_eq!(values(&y), values(&plain.get_output(&x).unwrap()));
    let d_probed = values(&probed.backward(&g).unwrap());
    assert_eq!(d_plain, d_probed);
    for k in [0, 2] {
        assert_eq!(grads(linear_at(&plain, k)), grads(linear_at(&probed, k)));
    }
}

#[test]
fn ragged_rows_are_refused() {
    let data = vec![vec![F(1.0), F(2.0)], vec![F(3.0)]];
    assert_eq!(Grid::from_rows(data, 2).err(), Some(NetError::ShapeMismatch));
}

#[test]
fn parameter_count_of_widths() {
    assert_eq!(parameter_count(2, &vec![8, 8], 1), Some(2 * 8 + 8 + 8 * 8 + 8 + 8 + 1));
    assert_eq!(parameter_count(3, &vec![], 2), Some(8));
    assert_eq!(parameter_count(usize::MAX, &vec![2], 1), None);
}

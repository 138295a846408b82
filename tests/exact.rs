use crabnn::grid::Grid;
use crabnn::linear::LinearLayer;
use crabnn::mse::MSE;
use crabnn::relu::ReLU;

fn grid(rows: Vec<Vec<u64>>, cols: usize) -> Grid<u64> {
    Grid::from_rows(rows, cols).unwrap()
}

fn values(g: &Grid<u64>) -> Vec<Vec<u64>> {
    (0..g.rows()).map(|i| (0..g.cols()).map(|j| g.get(i, j)).collect()).collect()
}

#[test]
fn exact_affine_layer_round() {
    let mut l = LinearLayer::from_parameters(grid(vec![vec![1, 2], vec![3, 4]], 2), grid(vec![vec![10], vec![20]], 1)).unwrap();
    let y = l.forward(&grid(vec![vec![1, 1], vec![2, 0]], 2)).unwrap();
    assert_eq!(values(&y), vec![vec![13, 27], vec![12, 26]]);
    let dx = l.backward(&grid(vec![vec![1, 0], vec![0, 2]], 2)).unwrap();
    assert_eq!(values(&dx), vec![vec![1, 2], vec![6, 8]]);
    l.sgd(1).unwrap();
    // ∂W = gᵀ·x = [[1, 1], [4, 0]], ∂b = [1, 2].
    assert_eq!(values(&l.weights), vec![vec![0, 1], vec![u64::MAX, 4]]);
    assert_eq!(values(&l.bias), vec![vec![9], vec![18]]);
}

#[test]
fn exact_mse_of_equal_grids_is_zero() {
    let p = grid(vec![vec![5, 9], vec![u64::MAX, 0]], 2);
    let mut loss = MSE::new();
    assert_eq!(loss.forward(&p, &p.copy()).unwrap(), 0);
    assert_eq!(values(&loss.backward().unwrap()), vec![vec![0, 0], vec![0, 0]]);
}

#[test]
fn exact_rectifier_keeps_positive_entries() {
    let mut r = ReLU::new();
    let y = r.forward(&grid(vec![vec![0, 3]], 2));
    assert_eq!(values(&y), vec![vec![0, 3]]);
    let d = r.backward(&grid(vec![vec![7, 8]], 2)).unwrap();
    assert_eq!(values(&d), vec![vec![0, 8]]);
}

#[test]
fn filled_and_transposed_grids() {
    let f = Grid::filled(2, 3, 7u64);
    assert_eq!(values(&f), vec![vec![7, 7, 7], vec![7, 7, 7]]);
    let t = grid(vec![vec![1, 2, 3], vec![4, 5, 6]], 3).transpose();
    assert_eq!(values(&t), vec![vec![1, 4], vec![2, 5], vec![3, 6]]);
}

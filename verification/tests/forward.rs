use slimnn::avg_pool_global::AvgPoolGlobal;
use slimnn::base::{BuildOnDevice, Module, ResetParams};
use slimnn::bias1d::Bias1D;
use slimnn::device::Device;
use slimnn::error::Error;
use slimnn::layer_norm1d::LayerNorm1D;
use slimnn::linear::{Linear, LinearUnbiased};
use slimnn::generalized_add::GeneralizedAdd;
use slimnn::relu::ReLU;
use slimnn::residual_add::ResidualAdd;
use slimnn::tensor::Tensor;
use slimnn::vecs::ModuleList;

fn tensor(shape: Vec<usize>, vals: Vec<i64>) -> Tensor {
    Tensor { id: 0, shape, vals, taped: false }
}

#[test]
fn relu_rectifies() {
    let m = ReLU;
    let x = tensor(vec![4], vec![-3, 0, 5, -1]);
    let y = m.try_forward(x).unwrap();
    assert_eq!(y.vals, vec![0, 0, 5, 0]);
    assert_eq!(y.shape, vec![4]);
}

#[test]
fn matmul_vector_times_matrix() {
    let dev = &mut Device::new(7);
    let mut m = LinearUnbiased::new(2, 2).try_build_on_device(dev).unwrap();
    // weight is row-major (inp, out)
    m.matmul.weight.vals = vec![1, 2, 3, 4];
    let x = tensor(vec![2], vec![1, 2]);
    let y = m.try_forward(x).unwrap();
    assert_eq!(y.shape, vec![2]);
    assert_eq!(y.vals, vec![1 * 1 + 2 * 3, 1 * 2 + 2 * 4]);
}

#[test]
fn matmul_batched() {
    let dev = &mut Device::new(7);
    let mut m = LinearUnbiased::new(2, 3).try_build_on_device(dev).unwrap();
    m.matmul.weight.vals = vec![1, 0, 2, 0, 1, 0];
    let x = tensor(vec![2, 2], vec![1, 1, 2, 0]);
    let y = m.try_forward(x).unwrap();
    assert_eq!(y.shape, vec![2, 3]);
    assert_eq!(y.vals, vec![1, 1, 2, 2, 0, 4]);
}

#[test]
fn matmul_rank_and_dim_errors() {
    let dev = &mut Device::new(7);
    let m = LinearUnbiased::new(2, 3).try_build_on_device(dev).unwrap();
    let scalar = tensor(vec![], vec![42]);
    assert_eq!(m.try_forward(scalar), Err(Error::Rank));
    let wrong = tensor(vec![3], vec![1, 2, 3]);
    assert_eq!(m.try_forward(wrong), Err(Error::Dim));
}

#[test]
fn bias_broadcasts_over_leading_axes() {
    let dev = &mut Device::new(7);
    let mut b = Bias1D(2).try_build_on_device(dev).unwrap();
    b.bias.vals = vec![10, 20];
    let x1 = tensor(vec![2], vec![1, 2]);
    assert_eq!(b.try_forward(x1).unwrap().vals, vec![11, 22]);
    let x2 = tensor(vec![2, 2], vec![1, 2, 3, 4]);
    assert_eq!(b.try_forward(x2).unwrap().vals, vec![11, 22, 13, 24]);
    let x3 = tensor(vec![1, 2, 2], vec![1, 2, 3, 4]);
    assert_eq!(b.try_forward(x3).unwrap().vals, vec![11, 22, 13, 24]);
}

#[test]
fn residual_add_is_input_plus_branch() {
    let m = ResidualAdd(ReLU);
    let x = tensor(vec![3], vec![-2, 0, 3]);
    let y = m.try_forward(x).unwrap();
    // x + relu(x)
    assert_eq!(y.vals, vec![-2, 0, 6]);
}

#[test]
fn generalized_add_sums_both_branches() {
    let m = GeneralizedAdd(ReLU, ReLU);
    let x = tensor(vec![3], vec![-2, 0, 3]);
    let y = m.try_forward(x).unwrap();
    // relu(x) + relu(x)
    assert_eq!(y.vals, vec![0, 0, 6]);
}

#[test]
fn sequential_list_matches_manual_chain() {
    let dev = &mut Device::new(7);
    let mut a = LinearUnbiased::new(2, 2).try_build_on_device(dev).unwrap();
    let mut b = LinearUnbiased::new(2, 2).try_build_on_device(dev).unwrap();
    a.matmul.weight.vals = vec![0, 1, 1, 0];
    b.matmul.weight.vals = vec![1, 1, 0, 1];
    let x = tensor(vec![2], vec![3, 5]);
    let manual = b.try_forward(a.try_forward(x.clone()).unwrap()).unwrap();
    let chain = ModuleList(vec![a, b]);
    let chained = chain.try_forward(x).unwrap();
    assert_eq!(chained.vals, manual.vals);
}

#[test]
fn sequential_order_matters() {
    let dev = &mut Device::new(7);
    let mut a = LinearUnbiased::new(2, 2).try_build_on_device(dev).unwrap();
    let mut b = LinearUnbiased::new(2, 2).try_build_on_device(dev).unwrap();
    // two non-commuting matrices
    a.matmul.weight.vals = vec![0, 1, 0, 0];
    b.matmul.weight.vals = vec![1, 0, 1, 1];
    let x = tensor(vec![2], vec![1, 2]);
    let ab = ModuleList(vec![a.clone(), b.clone()]).try_forward(x.clone()).unwrap();
    let ba = ModuleList(vec![b, a]).try_forward(x).unwrap();
    assert_ne!(ab.vals, ba.vals);
}

#[test]
fn empty_list_is_identity() {
    let chain: ModuleList<ReLU> = ModuleList(vec![]);
    let x = tensor(vec![2], vec![-1, 7]);
    let y = chain.try_forward(x).unwrap();
    assert_eq!(y.vals, vec![-1, 7]);
    assert_eq!(y.shape, vec![2]);
}

#[test]
fn two_layer_perceptron_shapes() {
    let dev = &mut Device::new(42);
    let mut l1 = Linear::new(3, 5).try_build_on_device(dev).unwrap();
    let mut l2 = Linear::new(5, 10).try_build_on_device(dev).unwrap();
    l1.try_reset_params(dev).unwrap();
    l2.try_reset_params(dev).unwrap();
    let act = ReLU;

    // a batch of 10 samples of dimension 3 flows to shape (10, 10)
    let batch = tensor(vec![10, 3], vec![1; 30]);
    let y = l1.try_forward(batch).unwrap();
    let y = act.try_forward(y).unwrap();
    let y = l2.try_forward(y).unwrap();
    let y = act.try_forward(y).unwrap();
    assert_eq!(y.shape, vec![10, 10]);

    // a single sample of dimension 3 flows to shape (10,)
    let single = tensor(vec![3], vec![1, 2, 3]);
    let y = l1.try_forward(single).unwrap();
    let y = act.try_forward(y).unwrap();
    let y = l2.try_forward(y).unwrap();
    let y = act.try_forward(y).unwrap();
    assert_eq!(y.shape, vec![10]);
}

#[test]
fn layer_norm_normalizes_rows() {
    let dev = &mut Device::new(7);
    let m = LayerNorm1D(3).try_build_on_device(dev).unwrap();
    // mean 4, biased variance 8/3 = 2, epsilon 1, sqrt(3) = 1
    let x = tensor(vec![3], vec![2, 4, 6]);
    let y = m.try_forward(x).unwrap();
    assert_eq!(y.vals, vec![-2, 0, 2]);
}

#[test]
fn avg_pool_global_reduces_spatial_axes() {
    let m = AvgPoolGlobal;
    let x = tensor(vec![2, 1, 2], vec![2, 4, 10, 30]);
    let y = m.try_forward(x).unwrap();
    assert_eq!(y.shape, vec![2]);
    assert_eq!(y.vals, vec![3, 20]);
    let x4 = tensor(vec![1, 2, 1, 2], vec![2, 4, 10, 30]);
    let y4 = m.try_forward(x4).unwrap();
    assert_eq!(y4.shape, vec![1, 2]);
    assert_eq!(y4.vals, vec![3, 20]);
}

#[test]
fn isqrt_and_init_bound() {
    assert_eq!(slimnn::ops::isqrt(0), 0);
    assert_eq!(slimnn::ops::isqrt(15), 3);
    assert_eq!(slimnn::ops::isqrt(16), 4);
    assert_eq!(slimnn::ops::isqrt(usize::MAX), 4294967295);
    // fan-in 16: 65536 / 4
    assert_eq!(slimnn::ops::init_bound_of(16), 16384);
    assert_eq!(slimnn::ops::init_bound_of(0), 1);
}

#[test]
fn reset_draws_stay_in_fan_in_bound() {
    let dev = &mut Device::new(3);
    let mut m = Linear::new(16, 4).try_build_on_device(dev).unwrap();
    m.try_reset_params(dev).unwrap();
    let bound = slimnn::ops::init_bound_of(16);
    for v in &m.matmul.weight.vals {
        assert!(-bound <= *v && *v <= bound);
    }
    for v in &m.bias.bias.vals {
        assert_eq!(*v, 0);
    }
}

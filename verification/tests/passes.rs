use slimnn::base::{update, BuildOnDevice, Module, Optimizer, ResetParams, UpdateParams, ZeroGrads};
use slimnn::batch_norm2d::BatchNorm2D;
use slimnn::device::Device;
use slimnn::error::OptimizerUpdateError;
use slimnn::grads::Gradients;
use slimnn::linear::Linear;
use slimnn::serialize::{LoadSafeTensors, Record, SaveSafeTensors};
use slimnn::sgd::{Sgd, SgdConfig};
use slimnn::tensor::{Dtype, Tensor};
use slimnn::vecs::ModuleList;

fn cfg() -> SgdConfig {
    SgdConfig { lr_num: 1, lr_den: 2, mom_num: 0, mom_den: 1 }
}

#[test]
fn building_twice_gives_identical_structure_and_shapes() {
    let dev = &mut Device::new(0);
    let a = Linear::new(3, 5).try_build_on_device(dev).unwrap();
    let b = Linear::new(3, 5).try_build_on_device(dev).unwrap();
    assert_eq!(a.matmul.weight.shape, b.matmul.weight.shape);
    assert_eq!(a.bias.bias.shape, b.bias.bias.shape);
    assert_eq!(a.matmul.weight.vals.len(), b.matmul.weight.vals.len());
    // the second build drew fresh identities
    assert_ne!(a.matmul.weight.id, b.matmul.weight.id);
}

#[test]
fn update_modifies_exactly_the_tensors_with_gradients() {
    let dev = &mut Device::new(0);
    let mut m = Linear::new(2, 2).try_build_on_device(dev).unwrap();
    m.matmul.weight.vals = vec![10, 10, 10, 10];
    m.bias.bias.vals = vec![7, 7];
    let bias_before = m.bias.bias.vals.clone();

    // gradient entry for the weight only: a strict subset of the parameters
    let mut grads = Gradients::new();
    grads.insert(
        m.matmul.weight.id,
        Tensor { id: 0, shape: vec![2, 2], vals: vec![2, 2, 2, 2], taped: false },
    );

    let mut opt = Sgd::new(cfg());
    let missing_id = m.bias.bias.id;
    let r = update(&mut opt, &mut m, &grads);
    match r {
        Err(OptimizerUpdateError::UnusedTensors(ids)) => assert_eq!(ids, vec![missing_id]),
        _ => panic!("expected the bias to be reported as missing"),
    }
    // velocity = 2, step = (1 * 2) / 2 = 1
    assert_eq!(m.matmul.weight.vals, vec![9, 9, 9, 9]);
    // untouched parameter is bit-identical
    assert_eq!(m.bias.bias.vals, bias_before);
}

#[test]
fn update_with_full_gradients_succeeds() {
    let dev = &mut Device::new(0);
    let mut m = Linear::new(1, 1).try_build_on_device(dev).unwrap();
    m.matmul.weight.vals = vec![10];
    m.bias.bias.vals = vec![4];
    let mut grads = Gradients::new();
    grads.insert(m.matmul.weight.id, Tensor { id: 0, shape: vec![1, 1], vals: vec![4], taped: false });
    grads.insert(m.bias.bias.id, Tensor { id: 0, shape: vec![1], vals: vec![2], taped: false });
    let mut opt = Sgd::new(cfg());
    assert!(update(&mut opt, &mut m, &grads).is_ok());
    assert_eq!(m.matmul.weight.vals, vec![8]);
    assert_eq!(m.bias.bias.vals, vec![3]);
}

#[test]
fn sgd_momentum_accumulates_velocity() {
    let dev = &mut Device::new(0);
    let mut m = Linear::new(1, 1).try_build_on_device(dev).unwrap();
    m.matmul.weight.vals = vec![100];
    let mut grads = Gradients::new();
    grads.insert(m.matmul.weight.id, Tensor { id: 0, shape: vec![1, 1], vals: vec![10], taped: false });
    grads.insert(m.bias.bias.id, Tensor { id: 0, shape: vec![1], vals: vec![0], taped: false });
    let mut opt = Sgd::new(SgdConfig { lr_num: 1, lr_den: 1, mom_num: 1, mom_den: 2 });
    // first step: velocity 10, second step: velocity 10 / 2 + 10 = 15
    assert!(update(&mut opt, &mut m, &grads).is_ok());
    assert_eq!(m.matmul.weight.vals, vec![90]);
    assert!(update(&mut opt, &mut m, &grads).is_ok());
    assert_eq!(m.matmul.weight.vals, vec![75]);
}

#[test]
fn zero_grads_is_idempotent() {
    let dev = &mut Device::new(0);
    let m = Linear::new(2, 3).try_build_on_device(dev).unwrap();
    let mut g1 = Gradients::new();
    m.try_zero_grads(&mut g1).unwrap();
    let mut g2 = Gradients::new();
    m.try_zero_grads(&mut g2).unwrap();
    m.try_zero_grads(&mut g2).unwrap();
    assert_eq!(g1.len(), 2);
    assert_eq!(g2.len(), 2);
    for id in [m.matmul.weight.id, m.bias.bias.id] {
        let a = g1.get(id).unwrap();
        let b = g2.get(id).unwrap();
        assert_eq!(a.vals, b.vals);
        assert_eq!(a.shape, b.shape);
        assert!(a.vals.iter().all(|v| *v == 0));
    }
}

#[test]
fn alloc_grads_covers_every_parameter() {
    let dev = &mut Device::new(0);
    let m = Linear::new(4, 2).try_build_on_device(dev).unwrap();
    let g = m.alloc_grads();
    assert_eq!(g.len(), 2);
    assert_eq!(g.get(m.matmul.weight.id).unwrap().shape, vec![4, 2]);
    assert_eq!(g.get(m.bias.bias.id).unwrap().shape, vec![2]);
}

#[test]
fn batch_norm_training_updates_running_statistics() {
    let dev = &mut Device::new(0);
    let mut bn = BatchNorm2D(1).try_build_on_device(dev).unwrap();
    assert_eq!(bn.running_mean.vals, vec![0]);
    assert_eq!(bn.running_var.vals, vec![1]);
    // one channel, four statistics, batch mean 30, momentum 1/10
    let mut x = Tensor { id: 0, shape: vec![1, 1, 4], vals: vec![10, 20, 30, 60], taped: true };
    let y = bn.try_forward_mut(x).unwrap();
    assert_eq!(y.shape, vec![1, 1, 4]);
    // running mean moved toward the batch mean by exactly one tenth
    assert_eq!(bn.running_mean.vals, vec![3]);
    // biased variance 350; unbiased correction 350 * 4 / 3 = 466;
    // (9 * 1 + 466) / 10 = 47
    assert_eq!(bn.running_var.vals, vec![47]);
}

#[test]
fn batch_norm_inference_leaves_state_unchanged() {
    let dev = &mut Device::new(0);
    let mut bn = BatchNorm2D(1).try_build_on_device(dev).unwrap();
    bn.running_mean.vals = vec![10];
    bn.running_var.vals = vec![3];
    let x = Tensor { id: 0, shape: vec![1, 1, 2], vals: vec![14, 6], taped: false };
    let y = bn.try_forward(x).unwrap();
    // std = isqrt(3 + 1) = 2: (14 - 10) / 2 = 2, (6 - 10) / 2 = -2
    assert_eq!(y.vals, vec![2, -2]);
    assert_eq!(bn.running_mean.vals, vec![10]);
    assert_eq!(bn.running_var.vals, vec![3]);
}

#[test]
fn serialization_round_trip_reproduces_records() {
    let dev = &mut Device::new(5);
    let mut t = Linear::new(3, 2).try_build_on_device(dev).unwrap();
    t.try_reset_params(dev).unwrap();
    let mut recs: Vec<Record> = Vec::new();
    t.write_safetensors("", &mut recs);
    assert_eq!(recs.len(), 2);
    assert_eq!(recs[0].path, "matmul/weight");
    assert_eq!(recs[1].path, "bias/bias");

    // load into a freshly built (uninitialized) tree of the same configuration
    let mut fresh = Linear::new(3, 2).try_build_on_device(dev).unwrap();
    fresh.read_safetensors("", &recs).unwrap();
    assert_eq!(fresh.matmul.weight.vals, t.matmul.weight.vals);
    assert_eq!(fresh.bias.bias.vals, t.bias.bias.vals);

    // flattening again reproduces every record byte for byte
    let mut recs2: Vec<Record> = Vec::new();
    fresh.write_safetensors("", &mut recs2);
    assert_eq!(recs2.len(), recs.len());
    for (a, b) in recs.iter().zip(recs2.iter()) {
        assert_eq!(a.path, b.path);
        assert_eq!(a.dtype, b.dtype);
        assert_eq!(a.shape, b.shape);
        assert_eq!(a.data, b.data);
    }
}

#[test]
fn container_round_trip_through_safetensors() {
    let dev = &mut Device::new(9);
    let mut t = Linear::new(2, 2).try_build_on_device(dev).unwrap();
    t.try_reset_params(dev).unwrap();
    let bytes = slimnn::st::save_to_bytes(&t).unwrap();
    let mut fresh = Linear::new(2, 2).try_build_on_device(dev).unwrap();
    slimnn::st::load_from_bytes(&mut fresh, &bytes).unwrap();
    assert_eq!(fresh.matmul.weight.vals, t.matmul.weight.vals);
    assert_eq!(fresh.bias.bias.vals, t.bias.bias.vals);
}

#[test]
fn loading_a_missing_path_is_a_hard_error() {
    let dev = &mut Device::new(0);
    let mut m = Linear::new(2, 2).try_build_on_device(dev).unwrap();
    let recs: Vec<Record> = Vec::new();
    assert_eq!(m.read_safetensors("", &recs), Err(slimnn::error::LoadError::MissingPath));
}

#[test]
fn loading_a_wrong_tag_or_shape_is_a_hard_error() {
    let dev = &mut Device::new(0);
    let mut m = slimnn::bias1d::Bias1D(2).try_build_on_device(dev).unwrap();
    let recs = vec![Record {
        path: String::from("bias"),
        dtype: Dtype::F32,
        shape: vec![2],
        data: vec![0; 8],
    }];
    assert_eq!(m.read_safetensors("", &recs), Err(slimnn::error::LoadError::DtypeMismatch));
    let recs = vec![Record {
        path: String::from("bias"),
        dtype: Dtype::I64,
        shape: vec![3],
        data: vec![0; 24],
    }];
    assert_eq!(m.read_safetensors("", &recs), Err(slimnn::error::LoadError::ShapeMismatch));
}

#[test]
fn malformed_container_bytes_are_rejected() {
    let dev = &mut Device::new(0);
    let mut m = Linear::new(1, 1).try_build_on_device(dev).unwrap();
    let junk = vec![1u8, 2, 3];
    assert_eq!(
        slimnn::st::load_from_bytes(&mut m, &junk),
        Err(slimnn::error::LoadError::Malformed)
    );
}

#[test]
fn build_module_ext_builds_and_initializes() {
    let dev = &mut Device::new(8);
    let m = slimnn::base::build_module_ext(dev, &Linear::new(4, 4)).unwrap();
    // the weight was drawn within the fan-in bound, the bias zero-filled
    let bound = slimnn::ops::init_bound_of(4);
    assert!(m.matmul.weight.vals.iter().all(|v| -bound <= *v && *v <= bound));
    assert!(m.bias.bias.vals.iter().all(|v| *v == 0));
}

#[test]
fn batch_norm_round_trip_keeps_running_statistics() {
    let dev = &mut Device::new(4);
    let mut bn = BatchNorm2D(2).try_build_on_device(dev).unwrap();
    bn.running_mean.vals = vec![5, -7];
    bn.running_var.vals = vec![9, 2];
    bn.scale.vals = vec![3, 4];
    let mut recs: Vec<Record> = Vec::new();
    bn.write_safetensors("", &mut recs);
    assert_eq!(recs.len(), 4);
    let mut fresh = BatchNorm2D(2).try_build_on_device(dev).unwrap();
    fresh.read_safetensors("", &recs).unwrap();
    assert_eq!(fresh.scale.vals, bn.scale.vals);
    assert_eq!(fresh.bias.vals, bn.bias.vals);
    assert_eq!(fresh.running_mean.vals, bn.running_mean.vals);
    assert_eq!(fresh.running_var.vals, bn.running_var.vals);
}

#[test]
fn list_round_trip_keys_elements_by_position() {
    let dev = &mut Device::new(6);
    let cfg = ModuleList(vec![Linear::new(2, 2), Linear::new(2, 2)]);
    let mut stack = cfg.try_build_on_device(dev).unwrap();
    stack.try_reset_params(dev).unwrap();
    let mut recs: Vec<Record> = Vec::new();
    stack.write_safetensors("", &mut recs);
    assert_eq!(recs.len(), 4);
    assert_eq!(recs[0].path, "0/matmul/weight");
    assert_eq!(recs[3].path, "1/bias/bias");
    let cfg2 = ModuleList(vec![Linear::new(2, 2), Linear::new(2, 2)]);
    let mut fresh = cfg2.try_build_on_device(dev).unwrap();
    fresh.read_safetensors("", &recs).unwrap();
    assert_eq!(fresh.0[0].matmul.weight.vals, stack.0[0].matmul.weight.vals);
    assert_eq!(fresh.0[1].bias.bias.vals, stack.0[1].bias.bias.vals);
}

#[test]
fn unwrapping_passes_match_the_fallible_ones() {
    let dev = &mut Device::new(12);
    let mut m = Linear::new(2, 2).try_build_on_device(dev).unwrap();
    let mut grads = Gradients::new();
    m.zero_grads(&mut grads);
    assert_eq!(grads.len(), 2);
    let mut opt = Sgd::new(cfg());
    let mut missing: Vec<u64> = Vec::new();
    m.update_params(&mut opt, &grads, &mut missing);
    assert!(missing.is_empty());
}

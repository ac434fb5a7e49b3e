use slimnn::base::{BuildOnDevice, Module, Module2, ResetParams, UpdateParams, ZeroGrads};
use slimnn::conv2d::Conv2D;
use slimnn::device::Device;
use slimnn::error::Error;
use slimnn::grads::Gradients;
use slimnn::max_pool_2d::{ConstMaxPool2D, DynMaxPool2D};
use slimnn::relu::ReLU;
use slimnn::serialize::{LoadSafeTensors, SaveSafeTensors};
use slimnn::sgd::{Sgd, SgdConfig};
use slimnn::tensor::Tensor;
use slimnn::transformer::{EncoderBlock, FeedForward};
use slimnn::vecs::ModuleList;

fn tensor(shape: Vec<usize>, vals: Vec<i64>) -> Tensor {
    Tensor { id: 0, shape, vals, taped: false }
}

#[test]
fn max_pool_takes_window_maxima() {
    let pool = DynMaxPool2D { kernel_size: 2, stride: 2, padding: 0, dilation: 1 };
    // one channel, 2 x 4
    let x = tensor(vec![1, 2, 4], vec![1, 5, 2, 0, 3, -1, 9, 4]);
    let y = pool.try_forward(x).unwrap();
    assert_eq!(y.shape, vec![1, 1, 2]);
    assert_eq!(y.vals, vec![5, 9]);
}

#[test]
fn max_pool_with_padding_sees_outside_as_bottom() {
    let pool = DynMaxPool2D { kernel_size: 3, stride: 1, padding: 1, dilation: 1 };
    let x = tensor(vec![1, 1, 1], vec![-7]);
    let y = pool.try_forward(x).unwrap();
    assert_eq!(y.shape, vec![1, 1, 1]);
    assert_eq!(y.vals, vec![-7]);
}

#[test]
fn max_pool_rejects_too_small_inputs() {
    let pool = DynMaxPool2D { kernel_size: 3, stride: 1, padding: 0, dilation: 1 };
    let x = tensor(vec![1, 2, 2], vec![1, 2, 3, 4]);
    assert_eq!(pool.try_forward(x), Err(Error::Dim));
}

#[test]
fn const_max_pool_matches_dyn() {
    let x = tensor(vec![1, 2, 2], vec![1, 2, 3, 4]);
    let c: ConstMaxPool2D<2, 2, 0, 1> = ConstMaxPool2D;
    let y = c.try_forward(x.clone()).unwrap();
    assert_eq!(y.vals, vec![4]);
    let d = c.as_dyn();
    assert_eq!(d.try_forward(x).unwrap().vals, vec![4]);
}

#[test]
fn conv_build_shapes_and_groups() {
    let dev = &mut Device::new(1);
    let cfg = Conv2D {
        in_chan: 4,
        out_chan: 6,
        kernel_size: 3,
        stride: 1,
        padding: 1,
        dilation: 1,
        groups: 2,
    };
    let mut built = cfg.try_build_on_device(dev).unwrap();
    assert_eq!(built.weight.shape, vec![6, 2, 3, 3]);
    assert!(built.weight.vals.iter().all(|v| *v == 0));
    assert_eq!(built.groups, 2);
    // fan-in 2 * 3 * 3 = 18, bound 65536 / 4
    built.try_reset_params(dev).unwrap();
    let bound = slimnn::ops::init_bound_of(18);
    assert_eq!(bound, 16384);
    assert!(built.weight.vals.iter().all(|v| -bound <= *v && *v <= bound));
}

#[test]
fn conv_update_and_zero_grads_touch_the_weight() {
    let dev = &mut Device::new(1);
    let cfg = Conv2D {
        in_chan: 1,
        out_chan: 1,
        kernel_size: 1,
        stride: 1,
        padding: 0,
        dilation: 1,
        groups: 1,
    };
    let mut built = cfg.try_build_on_device(dev).unwrap();
    let mut grads = Gradients::new();
    built.try_zero_grads(&mut grads).unwrap();
    assert_eq!(grads.get(built.weight.id).unwrap().vals, vec![0]);
    grads.insert(
        built.weight.id,
        Tensor { id: 0, shape: vec![1, 1, 1, 1], vals: vec![6], taped: false },
    );
    built.weight.vals = vec![100];
    let mut opt = Sgd::new(SgdConfig { lr_num: 1, lr_den: 3, mom_num: 0, mom_den: 1 });
    let mut missing: Vec<u64> = Vec::new();
    built.try_update_params(&mut opt, &grads, &mut missing).unwrap();
    assert!(missing.is_empty());
    assert_eq!(built.weight.vals, vec![98]);
}

#[test]
fn encoder_block_builds_and_runs() {
    let dev = &mut Device::new(11);
    // the self-attention slot is the caller's; a rectifier stands in here
    let cfg = EncoderBlock::new(ReLU, 4, 8);
    let mut block = cfg.try_build_on_device(dev).unwrap();
    block.try_reset_params(dev).unwrap();
    let x = tensor(vec![4], vec![3, -1, 2, 0]);
    let y = block.try_forward(x).unwrap();
    assert_eq!(y.shape, vec![4]);

    // the block's parameters: two linear layers and two layer norms
    let grads = block.alloc_grads();
    assert_eq!(grads.len(), 8);
}

#[test]
fn feed_forward_chains_expansion_and_projection() {
    let dev = &mut Device::new(2);
    let cfg = FeedForward::new(2, 3);
    let mut ff = cfg.try_build_on_device(dev).unwrap();
    ff.seq.0.matmul.weight.vals = vec![1, 0, 0, 0, 1, 0];
    ff.seq.1.1.matmul.weight.vals = vec![1, 0, 0, 1, 0, 0];
    let x = tensor(vec![2], vec![4, -5]);
    let y = ff.try_forward(x).unwrap();
    // expansion gives [4, -5, 0], rectified [4, 0, 0], projected [4, 0]
    assert_eq!(y.vals, vec![4, 0]);
}

#[test]
fn list_of_blocks_updates_every_layer() {
    let dev = &mut Device::new(3);
    let cfg = ModuleList(vec![
        slimnn::linear::LinearUnbiased::new(2, 2),
        slimnn::linear::LinearUnbiased::new(2, 2),
    ]);
    let mut stack = cfg.try_build_on_device(dev).unwrap();
    let grads = stack.alloc_grads();
    assert_eq!(grads.len(), 2);
    let mut opt = Sgd::new(SgdConfig { lr_num: 1, lr_den: 1, mom_num: 0, mom_den: 1 });
    let mut missing: Vec<u64> = Vec::new();
    stack.try_update_params(&mut opt, &grads, &mut missing).unwrap();
    assert!(missing.is_empty());
}

#[test]
fn conv_forward_sums_windows() {
    let dev = &mut Device::new(0);
    let cfg = Conv2D {
        in_chan: 1,
        out_chan: 1,
        kernel_size: 2,
        stride: 1,
        padding: 0,
        dilation: 1,
        groups: 1,
    };
    let mut m = cfg.try_build_on_device(dev).unwrap();
    m.weight.vals = vec![1, 1, 1, 1];
    let x = tensor(vec![1, 2, 2], vec![1, 2, 3, 4]);
    let y = m.try_forward(x).unwrap();
    assert_eq!(y.shape, vec![1, 1, 1]);
    assert_eq!(y.vals, vec![10]);
}

#[test]
fn conv_groups_keep_channels_separate() {
    let dev = &mut Device::new(0);
    let cfg = Conv2D {
        in_chan: 2,
        out_chan: 2,
        kernel_size: 1,
        stride: 1,
        padding: 0,
        dilation: 1,
        groups: 2,
    };
    let mut m = cfg.try_build_on_device(dev).unwrap();
    m.weight.vals = vec![10, 100];
    let x = tensor(vec![2, 1, 1], vec![1, 2]);
    let y = m.try_forward(x).unwrap();
    assert_eq!(y.shape, vec![2, 1, 1]);
    assert_eq!(y.vals, vec![10, 200]);
}

#[test]
fn conv_rejects_mismatched_channels() {
    let dev = &mut Device::new(0);
    let cfg = Conv2D {
        in_chan: 2,
        out_chan: 2,
        kernel_size: 1,
        stride: 1,
        padding: 0,
        dilation: 1,
        groups: 1,
    };
    let m = cfg.try_build_on_device(dev).unwrap();
    let x = tensor(vec![3, 1, 1], vec![1, 2, 3]);
    assert_eq!(m.try_forward(x), Err(Error::Dim));
}

#[test]
fn conv_zero_padding_contributes_nothing() {
    let dev = &mut Device::new(0);
    let cfg = Conv2D {
        in_chan: 1,
        out_chan: 1,
        kernel_size: 3,
        stride: 1,
        padding: 1,
        dilation: 1,
        groups: 1,
    };
    let mut m = cfg.try_build_on_device(dev).unwrap();
    m.weight.vals = vec![1; 9];
    let x = tensor(vec![1, 1, 1], vec![7]);
    let y = m.try_forward(x).unwrap();
    assert_eq!(y.shape, vec![1, 1, 1]);
    assert_eq!(y.vals, vec![7]);
}

#[test]
fn decoder_block_runs_target_and_memory() {
    let dev = &mut Device::new(21);
    // both attention slots are the caller's; a rectifier stands in, the
    // cross slot wrapped to ignore the memory stream
    let cfg = slimnn::transformer::DecoderBlock::new(ReLU, slimnn::transformer::TargetOnly(ReLU), 4, 8);
    let mut block = cfg.try_build_on_device(dev).unwrap();
    block.try_reset_params(dev).unwrap();
    let tgt = tensor(vec![4], vec![3, -1, 2, 0]);
    let mem = tensor(vec![4], vec![1, 1, 1, 1]);
    let y = block.try_forward2(tgt, mem).unwrap();
    assert_eq!(y.shape, vec![4]);
    // three layer norms and a feed-forward block own the parameters
    let grads = block.alloc_grads();
    assert_eq!(grads.len(), 10);
}

#[test]
fn transformer_chains_encoder_memory_into_decoder() {
    let dev = &mut Device::new(22);
    let enc = ModuleList(vec![slimnn::transformer::EncoderBlock::new(ReLU, 4, 8)]);
    let dec = ModuleList(vec![slimnn::transformer::DecoderBlock::new(
        ReLU,
        slimnn::transformer::TargetOnly(ReLU),
        4,
        8,
    )]);
    let cfg = slimnn::transformer::Transformer::new(enc, dec);
    let mut t = cfg.try_build_on_device(dev).unwrap();
    t.try_reset_params(dev).unwrap();
    let src = tensor(vec![4], vec![1, 2, 3, 4]);
    let tgt = tensor(vec![4], vec![4, 3, 2, 1]);
    let y = t.try_forward2(src, tgt).unwrap();
    assert_eq!(y.shape, vec![4]);
    let grads = t.alloc_grads();
    assert_eq!(grads.len(), 18);
}

#[test]
fn uniform_transformer_builds_the_requested_counts() {
    let dev = &mut Device::new(31);
    let cfg = slimnn::transformer::Transformer::new_uniform(
        ReLU,
        ReLU,
        slimnn::transformer::TargetOnly(ReLU),
        4,
        8,
        2,
        1,
    );
    assert_eq!(cfg.parts.0.0.len(), 2);
    assert_eq!(cfg.parts.1.0.len(), 1);
    let mut t = cfg.try_build_on_device(dev).unwrap();
    t.try_reset_params(dev).unwrap();
    let src = tensor(vec![4], vec![1, 2, 3, 4]);
    let tgt = tensor(vec![4], vec![4, 3, 2, 1]);
    let y = t.try_forward2(src, tgt).unwrap();
    assert_eq!(y.shape, vec![4]);
}

#[test]
fn transformer_round_trip_restores_every_stack() {
    let dev = &mut Device::new(33);
    let mk = || {
        slimnn::transformer::Transformer::new_uniform(
            ReLU,
            ReLU,
            slimnn::transformer::TargetOnly(ReLU),
            2,
            4,
            1,
            1,
        )
    };
    let mut t = mk().try_build_on_device(dev).unwrap();
    t.try_reset_params(dev).unwrap();
    let mut recs: Vec<slimnn::serialize::Record> = Vec::new();
    t.write_safetensors("", &mut recs);
    let mut fresh = mk().try_build_on_device(dev).unwrap();
    fresh.read_safetensors("", &recs).unwrap();
    let mut recs2: Vec<slimnn::serialize::Record> = Vec::new();
    fresh.write_safetensors("", &mut recs2);
    assert_eq!(recs.len(), recs2.len());
    for (a, b) in recs.iter().zip(recs2.iter()) {
        assert_eq!(a.path, b.path);
        assert_eq!(a.data, b.data);
    }
}

use vstd::prelude::*;

use crate::base::{shapes_of, upd_fold, BuildOnDevice, BuiltModule, Module, Optimizer,
    ResetParams, UpdateParams, ZeroGrads};
use crate::device::Device;
use crate::error::Error;
use crate::grads::Gradients;
use crate::linalg::{matmul_model, try_matmul};
use crate::ops::{init_bounded, init_bound_of};
use crate::tensor::{Tensor, TensorModel};

verus! {

/// Weight-matrix multiply configuration: input and output feature sizes.
#[derive(Clone, Copy, Debug, PartialEq, Eq, Structural, Default)]
pub struct MatMul {
    pub inp: usize,
    pub out: usize,
}

/// The built weight-matrix module: one trainable parameter of shape
/// `(inp, out)`; forward multiplies the input by it.
#[derive(Clone, Debug)]
pub struct DeviceMatMul {
    pub weight: Tensor,
}

/// Model of a built weight-matrix module.
#[verifier::ext_equal]
pub struct DeviceMatMulV {
    pub weight: TensorModel,
}

impl View for DeviceMatMul {
    type V = DeviceMatMulV;

    open spec fn view(&self) -> DeviceMatMulV {
        DeviceMatMulV { weight: self.weight@ }
    }
}

impl BuiltModule for DeviceMatMul {
    open spec fn v_wf(v: DeviceMatMulV) -> bool {
        v.weight.wf() && v.weight.shape.len() == 2 && !v.weight.taped
    }

    open spec fn tensors_of(v: DeviceMatMulV) -> Seq<TensorModel> {
        seq![v.weight]
    }

    open spec fn params_of(v: DeviceMatMulV) -> Seq<TensorModel> {
        seq![v.weight]
    }

    open spec fn with_params(v: DeviceMatMulV, ps: Seq<TensorModel>) -> DeviceMatMulV {
        if ps.len() == 1 {
            DeviceMatMulV { weight: ps[0] }
        } else {
            v
        }
    }

    proof fn lemma_tensors_wf(v: DeviceMatMulV) {
    }
}

impl Module for DeviceMatMul {
    open spec fn fwd_pre(v: DeviceMatMulV, x: TensorModel) -> bool {
        true
    }

    open spec fn fwd_mut_pre(v: DeviceMatMulV, x: TensorModel) -> bool {
        true
    }

    open spec fn fwd_of(v: DeviceMatMulV, x: TensorModel) -> Result<TensorModel, Error> {
        matmul_model(x, v.weight)
    }

    open spec fn fwd_mut_of(v: DeviceMatMulV, x: TensorModel) -> (
        DeviceMatMulV,
        Result<TensorModel, Error>,
    ) {
        (v, matmul_model(x, v.weight))
    }

    proof fn lemma_fwd_wf(v: DeviceMatMulV, x: TensorModel) {
        crate::linalg::lemma_matmul_wf(x, v.weight);
    }

    fn try_forward(&self, x: Tensor) -> (r: Result<Tensor, Error>) {
        try_matmul(&x, &self.weight)
    }

    fn try_forward_mut(&mut self, x: Tensor) -> (r: Result<Tensor, Error>) {
        try_matmul(&x, &self.weight)
    }
}

impl BuildOnDevice for MatMul {
    type Built = DeviceMatMul;

    open spec fn c_wf(&self) -> bool {
        true
    }

    open spec fn can_alloc(&self) -> bool {
        crate::tensor::shape_fits(seq![self.inp, self.out])
    }

    open spec fn n_ids(&self) -> nat {
        1
    }

    open spec fn built_model(&self, id0: u64) -> DeviceMatMulV {
        DeviceMatMulV { weight: TensorModel::filled(id0, seq![self.inp, self.out], 0) }
    }

    proof fn lemma_build_deterministic(&self, a: u64, b: u64) {
        crate::tensor::lemma_numel_nonneg(seq![self.inp, self.out]);
        assert(shapes_of(seq![self.built_model(a).weight]) =~= shapes_of(
            seq![self.built_model(b).weight],
        ));
    }

    fn try_build_on_device(&self, dev: &mut Device) -> (r: Result<DeviceMatMul, Error>) {
        let mut shape: Vec<usize> = Vec::new();
        shape.push(self.inp);
        shape.push(self.out);
        proof {
            assert(shape@ =~= seq![self.inp, self.out]);
        }
        let w = match dev.try_zeros(&shape) {
            Ok(w) => w,
            Err(e) => {
                return Err(e);
            },
        };
        proof {
            assert(DeviceMatMul { weight: w }@ =~= self.built_model(old(dev).next_id));
        }
        Ok(DeviceMatMul { weight: w })
    }
}

impl ResetParams for DeviceMatMul {
    /// The weight keeps its frame and is refilled with draws bounded by the
    /// fan-in rule, the fan-in being its first (input) axis.
    open spec fn reset_rel(pre: DeviceMatMulV, post: DeviceMatMulV) -> bool {
        &&& pre.weight.same_frame(post.weight)
        &&& init_bounded(post.weight.vals, pre.weight.shape[0])
    }

    fn try_reset_params(&mut self, dev: &mut Device) -> (r: Result<(), Error>) {
        let fan_in = self.weight.shape[0];
        let bound = init_bound_of(fan_in);
        dev.fill_uniform(&mut self.weight, bound);
        Ok(())
    }
}

impl UpdateParams for DeviceMatMul {
    fn try_update_params<O: Optimizer>(
        &mut self,
        opt: &mut O,
        grads: &Gradients,
        missing: &mut Vec<u64>,
    ) -> (r: Result<(), Error>) {
        proof {
            assert(Self::params_of(old(self)@)[0] == old(self)@.weight);
        }
        let res = opt.update_tensor(&mut self.weight, grads, missing);
        proof {
            let w = old(self)@.weight;
            crate::base::lemma_upd_fold_one::<O>(old(opt)@, w, grads@, old(missing)@);
            if grads@.contains_key(w.id) {
                O::lemma_step_frame(old(opt)@, w, grads@[w.id]);
            }
            assert(final(self)@ =~= Self::with_params(
                old(self)@,
                upd_fold::<O>(old(opt)@, Self::params_of(old(self)@), grads@, old(missing)@).1,
            ));
        }
        res
    }
}

impl ZeroGrads for DeviceMatMul {
    fn try_zero_grads(&self, grads: &mut Gradients) -> (r: Result<(), Error>) {
        grads.set_zero(&self.weight);
        proof {
            crate::base::lemma_zg_fold_one(self@.weight, old(grads)@);
        }
        Ok(())
    }
}


impl crate::serialize::SaveSafeTensors for DeviceMatMul {
    open spec fn recs_of(v: DeviceMatMulV, loc: Seq<char>) -> Seq<crate::serialize::RecordModel> {
        seq![crate::serialize::rec_of_tensor(loc + "weight"@, v.weight)]
    }

    open spec fn bytes_fit(v: DeviceMatMulV) -> bool {
        v.weight.vals.len() * 8 <= usize::MAX
    }

    fn write_safetensors(&self, loc: &str, out: &mut Vec<crate::serialize::Record>) {
        crate::serialize::write_leaf(&self.weight, loc, "weight", out);
    }
}

impl crate::serialize::LoadSafeTensors for DeviceMatMul {
    open spec fn load_model(
        v: DeviceMatMulV,
        recs: Seq<crate::serialize::RecordModel>,
        loc: Seq<char>,
    ) -> (DeviceMatMulV, Result<(), crate::error::LoadError>) {
        let (t2, r) = crate::serialize::load_leaf(v.weight, recs, loc + "weight"@);
        (DeviceMatMulV { weight: t2 }, r)
    }

    fn read_safetensors(&mut self, loc: &str, recs: &Vec<crate::serialize::Record>) -> (r: Result<
        (),
        crate::error::LoadError,
    >) {
        let path = crate::serialize::join_path(loc, "weight");
        let r = crate::serialize::read_leaf(&mut self.weight, recs, &path);
        proof {
            assert(final(self)@ =~= Self::load_model(
                old(self)@,
                crate::vecs::views_of(recs@),
                loc@,
            ).0);
        }
        r
    }
}
} // verus!

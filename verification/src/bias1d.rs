use vstd::prelude::*;

use crate::base::{shapes_of, upd_fold, BuildOnDevice, BuiltModule, Module, Optimizer,
    ResetParams, UpdateParams, ZeroGrads};
use crate::device::Device;
use crate::error::Error;
use crate::grads::Gradients;
use crate::ops::{bias_add_model, try_bias_add};
use crate::tensor::{Tensor, TensorModel};

verus! {

/// Additive bias configuration: the feature size it is broadcast over.
#[derive(Clone, Copy, Debug, PartialEq, Eq, Structural, Default)]
pub struct Bias1D(pub usize);

/// The built bias module: one trainable rank-1 parameter, added to the
/// input's trailing axis across all leading axes (none, batch, or
/// batch and sequence).
#[derive(Clone, Debug)]
pub struct DeviceBias1D {
    pub bias: Tensor,
}

/// Model of a built bias module.
#[verifier::ext_equal]
pub struct DeviceBias1DV {
    pub bias: TensorModel,
}

impl View for DeviceBias1D {
    type V = DeviceBias1DV;

    open spec fn view(&self) -> DeviceBias1DV {
        DeviceBias1DV { bias: self.bias@ }
    }
}

impl BuiltModule for DeviceBias1D {
    open spec fn v_wf(v: DeviceBias1DV) -> bool {
        v.bias.wf() && v.bias.shape.len() == 1 && !v.bias.taped
    }

    open spec fn tensors_of(v: DeviceBias1DV) -> Seq<TensorModel> {
        seq![v.bias]
    }

    open spec fn params_of(v: DeviceBias1DV) -> Seq<TensorModel> {
        seq![v.bias]
    }

    open spec fn with_params(v: DeviceBias1DV, ps: Seq<TensorModel>) -> DeviceBias1DV {
        if ps.len() == 1 {
            DeviceBias1DV { bias: ps[0] }
        } else {
            v
        }
    }

    proof fn lemma_tensors_wf(v: DeviceBias1DV) {
    }
}

impl Module for DeviceBias1D {
    open spec fn fwd_pre(v: DeviceBias1DV, x: TensorModel) -> bool {
        true
    }

    open spec fn fwd_mut_pre(v: DeviceBias1DV, x: TensorModel) -> bool {
        true
    }

    open spec fn fwd_of(v: DeviceBias1DV, x: TensorModel) -> Result<TensorModel, Error> {
        bias_add_model(x, v.bias)
    }

    open spec fn fwd_mut_of(v: DeviceBias1DV, x: TensorModel) -> (
        DeviceBias1DV,
        Result<TensorModel, Error>,
    ) {
        (v, bias_add_model(x, v.bias))
    }

    proof fn lemma_fwd_wf(v: DeviceBias1DV, x: TensorModel) {
        if bias_add_model(x, v.bias) is Ok {
            assert(bias_add_model(x, v.bias)->Ok_0.wf());
        }
    }

    fn try_forward(&self, x: Tensor) -> (r: Result<Tensor, Error>) {
        try_bias_add(&x, &self.bias)
    }

    fn try_forward_mut(&mut self, x: Tensor) -> (r: Result<Tensor, Error>) {
        try_bias_add(&x, &self.bias)
    }
}

impl BuildOnDevice for Bias1D {
    type Built = DeviceBias1D;

    open spec fn c_wf(&self) -> bool {
        true
    }

    open spec fn can_alloc(&self) -> bool {
        crate::tensor::shape_fits(seq![self.0])
    }

    open spec fn n_ids(&self) -> nat {
        1
    }

    open spec fn built_model(&self, id0: u64) -> DeviceBias1DV {
        DeviceBias1DV { bias: TensorModel::filled(id0, seq![self.0], 0) }
    }

    proof fn lemma_build_deterministic(&self, a: u64, b: u64) {
        crate::tensor::lemma_numel_nonneg(seq![self.0]);
        assert(shapes_of(seq![self.built_model(a).bias]) =~= shapes_of(
            seq![self.built_model(b).bias],
        ));
    }

    fn try_build_on_device(&self, dev: &mut Device) -> (r: Result<DeviceBias1D, Error>) {
        let mut shape: Vec<usize> = Vec::new();
        shape.push(self.0);
        proof {
            assert(shape@ =~= seq![self.0]);
        }
        let bias = match dev.try_zeros(&shape) {
            Ok(t) => t,
            Err(e) => {
                return Err(e);
            },
        };
        proof {
            assert(DeviceBias1D { bias }@ =~= self.built_model(old(dev).next_id));
        }
        Ok(DeviceBias1D { bias })
    }
}

impl ResetParams for DeviceBias1D {
    /// The bias is zero-filled; its frame survives.
    open spec fn reset_rel(pre: DeviceBias1DV, post: DeviceBias1DV) -> bool {
        post.bias == TensorModel::filled(pre.bias.id, pre.bias.shape, 0)
    }

    fn try_reset_params(&mut self, dev: &mut Device) -> (r: Result<(), Error>) {
        crate::tensor::zero_fill(&mut self.bias);
        Ok(())
    }
}

impl UpdateParams for DeviceBias1D {
    fn try_update_params<O: Optimizer>(
        &mut self,
        opt: &mut O,
        grads: &Gradients,
        missing: &mut Vec<u64>,
    ) -> (r: Result<(), Error>) {
        proof {
            assert(Self::params_of(old(self)@)[0] == old(self)@.bias);
        }
        let res = opt.update_tensor(&mut self.bias, grads, missing);
        proof {
            let w = old(self)@.bias;
            crate::base::lemma_upd_fold_one::<O>(old(opt)@, w, grads@, old(missing)@);
            if grads@.contains_key(w.id) {
                O::lemma_step_frame(old(opt)@, w, grads@[w.id]);
            }
            assert(final(self)@ =~= Self::with_params(
                old(self)@,
                upd_fold::<O>(old(opt)@, Self::params_of(old(self)@), grads@, old(missing)@).1,
            ));
        }
        res
    }
}

impl ZeroGrads for DeviceBias1D {
    fn try_zero_grads(&self, grads: &mut Gradients) -> (r: Result<(), Error>) {
        grads.set_zero(&self.bias);
        proof {
            crate::base::lemma_zg_fold_one(self@.bias, old(grads)@);
        }
        Ok(())
    }
}


impl crate::serialize::SaveSafeTensors for DeviceBias1D {
    open spec fn recs_of(v: DeviceBias1DV, loc: Seq<char>) -> Seq<crate::serialize::RecordModel> {
        seq![crate::serialize::rec_of_tensor(loc + "bias"@, v.bias)]
    }

    open spec fn bytes_fit(v: DeviceBias1DV) -> bool {
        v.bias.vals.len() * 8 <= usize::MAX
    }

    fn write_safetensors(&self, loc: &str, out: &mut Vec<crate::serialize::Record>) {
        crate::serialize::write_leaf(&self.bias, loc, "bias", out);
    }
}

impl crate::serialize::LoadSafeTensors for DeviceBias1D {
    open spec fn load_model(
        v: DeviceBias1DV,
        recs: Seq<crate::serialize::RecordModel>,
        loc: Seq<char>,
    ) -> (DeviceBias1DV, Result<(), crate::error::LoadError>) {
        let (t2, r) = crate::serialize::load_leaf(v.bias, recs, loc + "bias"@);
        (DeviceBias1DV { bias: t2 }, r)
    }

    fn read_safetensors(&mut self, loc: &str, recs: &Vec<crate::serialize::Record>) -> (r: Result<
        (),
        crate::error::LoadError,
    >) {
        let path = crate::serialize::join_path(loc, "bias");
        let r = crate::serialize::read_leaf(&mut self.bias, recs, &path);
        proof {
            assert(final(self)@ =~= Self::load_model(
                old(self)@,
                crate::vecs::views_of(recs@),
                loc@,
            ).0);
        }
        r
    }
}
} // verus!

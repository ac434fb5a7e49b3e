use vstd::prelude::*;

use crate::base::{BuildOnDevice, BuiltModule, Module, ResetParams, UpdateParams, ZeroGrads};
use crate::device::Device;
use crate::error::Error;
use crate::ops::relu_model;
use crate::tensor::{Tensor, TensorModel};

verus! {

/// Rectified linear activation: a parameterless functional module whose
/// forward rectifies every element. All other capabilities are no-ops.
#[derive(Clone, Copy, Debug, PartialEq, Eq, Structural, Default)]
pub struct ReLU;

impl View for ReLU {
    type V = ReLU;

    open spec fn view(&self) -> ReLU {
        *self
    }
}

impl BuiltModule for ReLU {
    open spec fn v_wf(v: ReLU) -> bool {
        true
    }

    open spec fn tensors_of(v: ReLU) -> Seq<TensorModel> {
        Seq::empty()
    }

    open spec fn params_of(v: ReLU) -> Seq<TensorModel> {
        Seq::empty()
    }

    open spec fn with_params(v: ReLU, ps: Seq<TensorModel>) -> ReLU {
        v
    }

    proof fn lemma_tensors_wf(v: ReLU) {
    }
}

impl Module for ReLU {
    open spec fn fwd_pre(v: ReLU, x: TensorModel) -> bool {
        true
    }

    open spec fn fwd_mut_pre(v: ReLU, x: TensorModel) -> bool {
        true
    }

    open spec fn fwd_of(v: ReLU, x: TensorModel) -> Result<TensorModel, Error> {
        Ok(relu_model(x))
    }

    open spec fn fwd_mut_of(v: ReLU, x: TensorModel) -> (ReLU, Result<TensorModel, Error>) {
        (v, Ok(relu_model(x)))
    }

    proof fn lemma_fwd_wf(v: ReLU, x: TensorModel) {
    }

    fn try_forward(&self, x: Tensor) -> (r: Result<Tensor, Error>) {
        Ok(crate::ops::relu(&x))
    }

    fn try_forward_mut(&mut self, x: Tensor) -> (r: Result<Tensor, Error>) {
        Ok(crate::ops::relu(&x))
    }
}


impl BuildOnDevice for ReLU {
    type Built = ReLU;

    open spec fn c_wf(&self) -> bool {
        true
    }

    open spec fn can_alloc(&self) -> bool {
        true
    }

    open spec fn n_ids(&self) -> nat {
        0
    }

    open spec fn built_model(&self, id0: u64) -> ReLU {
        *self
    }

    proof fn lemma_build_deterministic(&self, a: u64, b: u64) {
    }

    fn try_build_on_device(&self, dev: &mut Device) -> (r: Result<ReLU, Error>) {
        Ok(*self)
    }
}

impl ResetParams for ReLU {
    open spec fn reset_rel(pre: ReLU, post: ReLU) -> bool {
        true
    }

    fn try_reset_params(&mut self, dev: &mut Device) -> (r: Result<(), Error>) {
        Ok(())
    }
}

impl UpdateParams for ReLU {
    fn try_update_params<O: crate::base::Optimizer>(
        &mut self,
        opt: &mut O,
        grads: &crate::grads::Gradients,
        missing: &mut Vec<u64>,
    ) -> (r: Result<(), Error>) {
        proof {
            assert(final(self)@ == Self::with_params(
                old(self)@,
                crate::base::upd_fold::<O>(
                    old(opt)@,
                    Self::params_of(old(self)@),
                    grads@,
                    old(missing)@,
                ).1,
            ));
        }
        Ok(())
    }
}

impl ZeroGrads for ReLU {
    fn try_zero_grads(&self, grads: &mut crate::grads::Gradients) -> (r: Result<(), Error>) {
        Ok(())
    }
}

impl crate::serialize::SaveSafeTensors for ReLU {
    open spec fn recs_of(v: ReLU, loc: Seq<char>) -> Seq<crate::serialize::RecordModel> {
        Seq::empty()
    }

    open spec fn bytes_fit(v: ReLU) -> bool {
        true
    }

    fn write_safetensors(&self, loc: &str, out: &mut Vec<crate::serialize::Record>) {
        proof {
            assert(crate::vecs::views_of(out@) =~= crate::vecs::views_of(out@) + Seq::<
                crate::serialize::RecordModel,
            >::empty());
        }
    }
}

impl crate::serialize::LoadSafeTensors for ReLU {
    open spec fn load_model(v: ReLU, recs: Seq<crate::serialize::RecordModel>, loc: Seq<char>) -> (
        ReLU,
        Result<(), crate::error::LoadError>,
    ) {
        (v, Ok(()))
    }

    fn read_safetensors(&mut self, loc: &str, recs: &Vec<crate::serialize::Record>) -> (r: Result<
        (),
        crate::error::LoadError,
    >) {
        Ok(())
    }
}
} // verus!

use vstd::prelude::*;

use crate::base::{upd_fold, BuildOnDevice, BuiltModule, Module, Optimizer, ResetParams,
    UpdateParams, ZeroGrads};
use crate::device::Device;
use crate::error::Error;
use crate::grads::Gradients;
use crate::ops::{add_model, try_add};
use crate::tensor::{Tensor, TensorModel};

verus! {

/// Residual combinator: `forward(x) = x + T::forward(x)`. The branch is
/// evaluated exactly once; the input is duplicated for the identity path.
#[derive(Clone, Debug, Default)]
pub struct ResidualAdd<T>(pub T);

/// Model of a residual combinator: the model of its single branch.
pub struct ResidualAddV<M>(pub M);

impl<T: View> View for ResidualAdd<T> {
    type V = ResidualAddV<T::V>;

    open spec fn view(&self) -> ResidualAddV<T::V> {
        ResidualAddV(self.0@)
    }
}

impl<T: BuiltModule> BuiltModule for ResidualAdd<T> {
    open spec fn v_wf(v: Self::V) -> bool {
        T::v_wf(v.0)
    }

    open spec fn tensors_of(v: Self::V) -> Seq<TensorModel> {
        T::tensors_of(v.0)
    }

    open spec fn params_of(v: Self::V) -> Seq<TensorModel> {
        T::params_of(v.0)
    }

    open spec fn with_params(v: Self::V, ps: Seq<TensorModel>) -> Self::V {
        ResidualAddV(T::with_params(v.0, ps))
    }

    proof fn lemma_tensors_wf(v: Self::V) {
        T::lemma_tensors_wf(v.0);
    }
}

impl<T: Module> Module for ResidualAdd<T> {
    open spec fn fwd_pre(v: Self::V, x: TensorModel) -> bool {
        T::fwd_pre(v.0, x)
    }

    open spec fn fwd_mut_pre(v: Self::V, x: TensorModel) -> bool {
        T::fwd_mut_pre(v.0, x)
    }

    open spec fn fwd_of(v: Self::V, x: TensorModel) -> Result<TensorModel, Error> {
        match T::fwd_of(v.0, x) {
            Ok(y) => add_model(x, y),
            Err(e) => Err(e),
        }
    }

    open spec fn fwd_mut_of(v: Self::V, x: TensorModel) -> (Self::V, Result<TensorModel, Error>) {
        let (m2, r) = T::fwd_mut_of(v.0, x);
        (
            ResidualAddV(m2),
            match r {
                Ok(y) => add_model(x, y),
                Err(e) => Err(e),
            },
        )
    }

    proof fn lemma_fwd_wf(v: Self::V, x: TensorModel) {
        T::lemma_fwd_wf(v.0, x);
    }

    fn try_forward(&self, x: Tensor) -> (r: Result<Tensor, Error>) {
        let y = match self.0.try_forward(x.clone()) {
            Ok(y) => y,
            Err(e) => {
                return Err(e);
            },
        };
        proof {
            T::lemma_fwd_wf(self@.0, x@);
        }
        try_add(&x, &y)
    }

    fn try_forward_mut(&mut self, x: Tensor) -> (r: Result<Tensor, Error>) {
        let y = match self.0.try_forward_mut(x.clone()) {
            Ok(y) => y,
            Err(e) => {
                return Err(e);
            },
        };
        proof {
            T::lemma_fwd_wf(old(self)@.0, x@);
        }
        try_add(&x, &y)
    }
}

impl<C: BuildOnDevice> BuildOnDevice for ResidualAdd<C> {
    type Built = ResidualAdd<C::Built>;

    open spec fn c_wf(&self) -> bool {
        self.0.c_wf()
    }

    open spec fn can_alloc(&self) -> bool {
        self.0.can_alloc()
    }

    open spec fn n_ids(&self) -> nat {
        self.0.n_ids()
    }

    open spec fn built_model(&self, id0: u64) -> <Self::Built as View>::V {
        ResidualAddV(self.0.built_model(id0))
    }

    proof fn lemma_build_deterministic(&self, a: u64, b: u64) {
        self.0.lemma_build_deterministic(a, b);
    }

    fn try_build_on_device(&self, dev: &mut Device) -> (r: Result<ResidualAdd<C::Built>, Error>) {
        let t = match self.0.try_build_on_device(dev) {
            Ok(t) => t,
            Err(e) => {
                return Err(e);
            },
        };
        proof {
            assert(ResidualAdd(t)@ =~= self.built_model(old(dev).next_id));
        }
        Ok(ResidualAdd(t))
    }
}

impl<T: ResetParams> ResetParams for ResidualAdd<T> {
    open spec fn reset_rel(pre: Self::V, post: Self::V) -> bool {
        T::reset_rel(pre.0, post.0)
    }

    fn try_reset_params(&mut self, dev: &mut Device) -> (r: Result<(), Error>) {
        self.0.try_reset_params(dev)
    }
}

impl<T: UpdateParams> UpdateParams for ResidualAdd<T> {
    fn try_update_params<O: Optimizer>(
        &mut self,
        opt: &mut O,
        grads: &Gradients,
        missing: &mut Vec<u64>,
    ) -> (r: Result<(), Error>) {
        let res = self.0.try_update_params(opt, grads, missing);
        proof {
            assert(final(self)@ =~= Self::with_params(
                old(self)@,
                upd_fold::<O>(old(opt)@, Self::params_of(old(self)@), grads@, old(missing)@).1,
            ));
        }
        res
    }
}

impl<T: ZeroGrads> ZeroGrads for ResidualAdd<T> {
    fn try_zero_grads(&self, grads: &mut Gradients) -> (r: Result<(), Error>) {
        self.0.try_zero_grads(grads)
    }
}


impl<T: crate::serialize::SaveSafeTensors> crate::serialize::SaveSafeTensors for ResidualAdd<T> {
    open spec fn recs_of(v: Self::V, loc: Seq<char>) -> Seq<crate::serialize::RecordModel> {
        T::recs_of(v.0, loc + "0/"@)
    }

    open spec fn bytes_fit(v: Self::V) -> bool {
        T::bytes_fit(v.0)
    }

    fn write_safetensors(&self, loc: &str, out: &mut Vec<crate::serialize::Record>) {
        let p = crate::serialize::join_path(loc, "0/");
        self.0.write_safetensors(p.as_str(), out);
    }
}

impl<T: crate::serialize::LoadSafeTensors> crate::serialize::LoadSafeTensors for ResidualAdd<T> {
    open spec fn load_model(
        v: Self::V,
        recs: Seq<crate::serialize::RecordModel>,
        loc: Seq<char>,
    ) -> (Self::V, Result<(), crate::error::LoadError>) {
        let (t2, r) = T::load_model(v.0, recs, loc + "0/"@);
        (ResidualAddV(t2), r)
    }

    fn read_safetensors(&mut self, loc: &str, recs: &Vec<crate::serialize::Record>) -> (r: Result<
        (),
        crate::error::LoadError,
    >) {
        let p = crate::serialize::join_path(loc, "0/");
        let r = self.0.read_safetensors(p.as_str(), recs);
        proof {
            assert(final(self)@ =~= Self::load_model(
                old(self)@,
                crate::vecs::views_of(recs@),
                loc@,
            ).0);
        }
        r
    }
}
} // verus!

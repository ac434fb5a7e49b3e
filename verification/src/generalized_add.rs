use vstd::prelude::*;

use crate::base::{upd_fold, BuildOnDevice, BuiltModule, Module, Optimizer, ResetParams,
    UpdateParams, ZeroGrads};
use crate::device::Device;
use crate::error::Error;
use crate::grads::Gradients;
use crate::ops::{add_model, try_add};
use crate::tensor::{Tensor, TensorModel};

verus! {

/// Two-branch combinator: `forward(x) = T::forward(x) + U::forward(x)`. Both
/// branches see an independent copy of the input; the first branch is
/// evaluated first and the chain fails on the first erroring branch. The same
/// generic shape serves as its own configuration: building it builds both
/// branches in order.
#[derive(Clone, Debug, Default)]
pub struct GeneralizedAdd<T, U>(pub T, pub U);

/// Model of a two-branch combinator.
#[verifier::ext_equal]
pub struct GeneralizedAddV<M, N>(pub M, pub N);

impl<T: View, U: View> View for GeneralizedAdd<T, U> {
    type V = GeneralizedAddV<T::V, U::V>;

    open spec fn view(&self) -> GeneralizedAddV<T::V, U::V> {
        GeneralizedAddV(self.0@, self.1@)
    }
}

impl<T: BuiltModule, U: BuiltModule> BuiltModule for GeneralizedAdd<T, U> {
    open spec fn v_wf(v: Self::V) -> bool {
        T::v_wf(v.0) && U::v_wf(v.1)
    }

    open spec fn tensors_of(v: Self::V) -> Seq<TensorModel> {
        T::tensors_of(v.0) + U::tensors_of(v.1)
    }

    open spec fn params_of(v: Self::V) -> Seq<TensorModel> {
        T::params_of(v.0) + U::params_of(v.1)
    }

    open spec fn with_params(v: Self::V, ps: Seq<TensorModel>) -> Self::V {
        let n1 = T::params_of(v.0).len() as int;
        GeneralizedAddV(T::with_params(v.0, ps.take(n1)), U::with_params(v.1, ps.skip(n1)))
    }

    proof fn lemma_tensors_wf(v: Self::V) {
        T::lemma_tensors_wf(v.0);
        U::lemma_tensors_wf(v.1);
        crate::linear::lemma_concat_all_wf(T::tensors_of(v.0), U::tensors_of(v.1));
        crate::linear::lemma_concat_all_wf(T::params_of(v.0), U::params_of(v.1));
    }
}

impl<T: Module, U: Module> Module for GeneralizedAdd<T, U> {
    open spec fn fwd_pre(v: Self::V, x: TensorModel) -> bool {
        T::fwd_pre(v.0, x) && U::fwd_pre(v.1, x)
    }

    open spec fn fwd_mut_pre(v: Self::V, x: TensorModel) -> bool {
        T::fwd_mut_pre(v.0, x) && U::fwd_mut_pre(v.1, x)
    }

    open spec fn fwd_of(v: Self::V, x: TensorModel) -> Result<TensorModel, Error> {
        match T::fwd_of(v.0, x) {
            Ok(a) => match U::fwd_of(v.1, x) {
                Ok(b) => add_model(a, b),
                Err(e) => Err(e),
            },
            Err(e) => Err(e),
        }
    }

    open spec fn fwd_mut_of(v: Self::V, x: TensorModel) -> (Self::V, Result<TensorModel, Error>) {
        let (m0, r0) = T::fwd_mut_of(v.0, x);
        match r0 {
            Ok(a) => {
                let (m1, r1) = U::fwd_mut_of(v.1, x);
                (
                    GeneralizedAddV(m0, m1),
                    match r1 {
                        Ok(b) => add_model(a, b),
                        Err(e) => Err(e),
                    },
                )
            },
            Err(e) => (GeneralizedAddV(m0, v.1), Err(e)),
        }
    }

    proof fn lemma_fwd_wf(v: Self::V, x: TensorModel) {
        T::lemma_fwd_wf(v.0, x);
        U::lemma_fwd_wf(v.1, x);
    }

    fn try_forward(&self, x: Tensor) -> (r: Result<Tensor, Error>) {
        let a = match self.0.try_forward(x.clone()) {
            Ok(a) => a,
            Err(e) => {
                return Err(e);
            },
        };
        let b = match self.1.try_forward(x) {
            Ok(b) => b,
            Err(e) => {
                return Err(e);
            },
        };
        proof {
            T::lemma_fwd_wf(self@.0, x@);
            U::lemma_fwd_wf(self@.1, x@);
        }
        try_add(&a, &b)
    }

    fn try_forward_mut(&mut self, x: Tensor) -> (r: Result<Tensor, Error>) {
        let a = match self.0.try_forward_mut(x.clone()) {
            Ok(a) => a,
            Err(e) => {
                return Err(e);
            },
        };
        let b = match self.1.try_forward_mut(x) {
            Ok(b) => b,
            Err(e) => {
                return Err(e);
            },
        };
        proof {
            T::lemma_fwd_wf(old(self)@.0, x@);
            U::lemma_fwd_wf(old(self)@.1, x@);
        }
        try_add(&a, &b)
    }
}

impl<T: BuildOnDevice, U: BuildOnDevice> BuildOnDevice for GeneralizedAdd<T, U> {
    type Built = GeneralizedAdd<T::Built, U::Built>;

    open spec fn c_wf(&self) -> bool {
        self.0.c_wf() && self.1.c_wf()
    }

    open spec fn can_alloc(&self) -> bool {
        self.0.can_alloc() && self.1.can_alloc()
    }

    open spec fn n_ids(&self) -> nat {
        self.0.n_ids() + self.1.n_ids()
    }

    open spec fn built_model(&self, id0: u64) -> <Self::Built as View>::V {
        GeneralizedAddV(
            self.0.built_model(id0),
            self.1.built_model((id0 + self.0.n_ids()) as u64),
        )
    }

    proof fn lemma_build_deterministic(&self, a: u64, b: u64) {
        self.0.lemma_build_deterministic(a, b);
        self.1.lemma_build_deterministic(
            (a + self.0.n_ids()) as u64,
            (b + self.0.n_ids()) as u64,
        );
        crate::vecs::lemma_shapes_concat(
            <T::Built as BuiltModule>::tensors_of(self.0.built_model(a)),
            <U::Built as BuiltModule>::tensors_of(self.1.built_model((a + self.0.n_ids()) as u64)),
        );
        crate::vecs::lemma_shapes_concat(
            <T::Built as BuiltModule>::tensors_of(self.0.built_model(b)),
            <U::Built as BuiltModule>::tensors_of(self.1.built_model((b + self.0.n_ids()) as u64)),
        );
        crate::vecs::lemma_shapes_concat(
            <T::Built as BuiltModule>::params_of(self.0.built_model(a)),
            <U::Built as BuiltModule>::params_of(self.1.built_model((a + self.0.n_ids()) as u64)),
        );
        crate::vecs::lemma_shapes_concat(
            <T::Built as BuiltModule>::params_of(self.0.built_model(b)),
            <U::Built as BuiltModule>::params_of(self.1.built_model((b + self.0.n_ids()) as u64)),
        );
    }

    fn try_build_on_device(&self, dev: &mut Device) -> (r: Result<
        GeneralizedAdd<T::Built, U::Built>,
        Error,
    >) {
        let t = match self.0.try_build_on_device(dev) {
            Ok(t) => t,
            Err(e) => {
                return Err(e);
            },
        };
        let u = match self.1.try_build_on_device(dev) {
            Ok(u) => u,
            Err(e) => {
                return Err(e);
            },
        };
        proof {
            assert(GeneralizedAdd(t, u)@ =~= self.built_model(old(dev).next_id));
        }
        Ok(GeneralizedAdd(t, u))
    }
}

impl<T: ResetParams, U: ResetParams> ResetParams for GeneralizedAdd<T, U> {
    open spec fn reset_rel(pre: Self::V, post: Self::V) -> bool {
        T::reset_rel(pre.0, post.0) && U::reset_rel(pre.1, post.1)
    }

    fn try_reset_params(&mut self, dev: &mut Device) -> (r: Result<(), Error>) {
        let r1 = self.0.try_reset_params(dev);
        match r1 {
            Ok(()) => {},
            Err(e) => {
                return Err(e);
            },
        }
        self.1.try_reset_params(dev)
    }
}

impl<T: UpdateParams, U: UpdateParams> UpdateParams for GeneralizedAdd<T, U> {
    fn try_update_params<O: Optimizer>(
        &mut self,
        opt: &mut O,
        grads: &Gradients,
        missing: &mut Vec<u64>,
    ) -> (r: Result<(), Error>) {
        proof {
            crate::base::lemma_grads_match_split(
                T::params_of(old(self)@.0),
                U::params_of(old(self)@.1),
                grads@,
            );
        }
        let r1 = self.0.try_update_params(opt, grads, missing);
        match r1 {
            Ok(()) => {},
            Err(e) => {
                return Err(e);
            },
        }
        let r2 = self.1.try_update_params(opt, grads, missing);
        proof {
            let pa = T::params_of(old(self)@.0);
            let pb = U::params_of(old(self)@.1);
            crate::base::lemma_upd_fold_concat::<O>(old(opt)@, pa, pb, grads@, old(missing)@);
            crate::base::lemma_upd_fold_len::<O>(old(opt)@, pa, grads@, old(missing)@);
            let (o1, pa2, m1) = upd_fold::<O>(old(opt)@, pa, grads@, old(missing)@);
            let (o2, pb2, m2) = upd_fold::<O>(o1, pb, grads@, m1);
            assert((pa2 + pb2).take(pa.len() as int) =~= pa2);
            assert((pa2 + pb2).skip(pa.len() as int) =~= pb2);
            assert(final(self)@ =~= Self::with_params(old(self)@, pa2 + pb2));
        }
        r2
    }
}

impl<T: ZeroGrads, U: ZeroGrads> ZeroGrads for GeneralizedAdd<T, U> {
    fn try_zero_grads(&self, grads: &mut Gradients) -> (r: Result<(), Error>) {
        let r1 = self.0.try_zero_grads(grads);
        match r1 {
            Ok(()) => {},
            Err(e) => {
                return Err(e);
            },
        }
        let r2 = self.1.try_zero_grads(grads);
        proof {
            crate::base::lemma_zg_fold_concat(
                T::params_of(self@.0),
                U::params_of(self@.1),
                old(grads)@,
            );
        }
        r2
    }
}


impl<T: crate::serialize::SaveSafeTensors, U: crate::serialize::SaveSafeTensors>
    crate::serialize::SaveSafeTensors for GeneralizedAdd<T, U> {
    open spec fn recs_of(v: Self::V, loc: Seq<char>) -> Seq<crate::serialize::RecordModel> {
        T::recs_of(v.0, loc + "0/"@) + U::recs_of(v.1, loc + "1/"@)
    }

    open spec fn bytes_fit(v: Self::V) -> bool {
        T::bytes_fit(v.0) && U::bytes_fit(v.1)
    }

    fn write_safetensors(&self, loc: &str, out: &mut Vec<crate::serialize::Record>) {
        let p0 = crate::serialize::join_path(loc, "0/");
        self.0.write_safetensors(p0.as_str(), out);
        let p1 = crate::serialize::join_path(loc, "1/");
        self.1.write_safetensors(p1.as_str(), out);
        proof {
            assert(crate::vecs::views_of(final(out)@) =~= crate::vecs::views_of(old(out)@)
                + Self::recs_of(self@, loc@));
        }
    }
}

impl<T: crate::serialize::LoadSafeTensors, U: crate::serialize::LoadSafeTensors>
    crate::serialize::LoadSafeTensors for GeneralizedAdd<T, U> {
    open spec fn load_model(
        v: Self::V,
        recs: Seq<crate::serialize::RecordModel>,
        loc: Seq<char>,
    ) -> (Self::V, Result<(), crate::error::LoadError>) {
        let (t2, r1) = T::load_model(v.0, recs, loc + "0/"@);
        match r1 {
            Err(e) => (GeneralizedAddV(t2, v.1), Err(e)),
            Ok(()) => {
                let (u2, r2) = U::load_model(v.1, recs, loc + "1/"@);
                (GeneralizedAddV(t2, u2), r2)
            },
        }
    }

    fn read_safetensors(&mut self, loc: &str, recs: &Vec<crate::serialize::Record>) -> (r: Result<
        (),
        crate::error::LoadError,
    >) {
        let p0 = crate::serialize::join_path(loc, "0/");
        let r1 = self.0.read_safetensors(p0.as_str(), recs);
        match r1 {
            Ok(()) => {},
            Err(e) => {
                proof {
                    assert(final(self)@ =~= Self::load_model(
                        old(self)@,
                        crate::vecs::views_of(recs@),
                        loc@,
                    ).0);
                }
                return Err(e);
            },
        }
        let p1 = crate::serialize::join_path(loc, "1/");
        let r2 = self.1.read_safetensors(p1.as_str(), recs);
        proof {
            assert(final(self)@ =~= Self::load_model(
                old(self)@,
                crate::vecs::views_of(recs@),
                loc@,
            ).0);
        }
        r2
    }
}
} // verus!

use vstd::prelude::*;

use crate::base::{upd_fold, BuildOnDevice, BuiltModule, Module, Optimizer, ResetParams,
    UpdateParams, ZeroGrads};
use crate::device::Device;
use crate::error::Error;
use crate::grads::Gradients;
use crate::tensor::{Tensor, TensorModel};

verus! {

/// Sequential chaining for a heterogeneous pair: the first module's output
/// feeds the second's input, failing fast at the first erroring step. Longer
/// heterogeneous chains nest pairs; every capability traversal visits the
/// fields in order.
impl<A: BuiltModule, B: BuiltModule> BuiltModule for (A, B) {
    open spec fn v_wf(v: Self::V) -> bool {
        A::v_wf(v.0) && B::v_wf(v.1)
    }

    open spec fn tensors_of(v: Self::V) -> Seq<TensorModel> {
        A::tensors_of(v.0) + B::tensors_of(v.1)
    }

    open spec fn params_of(v: Self::V) -> Seq<TensorModel> {
        A::params_of(v.0) + B::params_of(v.1)
    }

    open spec fn with_params(v: Self::V, ps: Seq<TensorModel>) -> Self::V {
        let n1 = A::params_of(v.0).len() as int;
        (A::with_params(v.0, ps.take(n1)), B::with_params(v.1, ps.skip(n1)))
    }

    proof fn lemma_tensors_wf(v: Self::V) {
        A::lemma_tensors_wf(v.0);
        B::lemma_tensors_wf(v.1);
        crate::linear::lemma_concat_all_wf(A::tensors_of(v.0), B::tensors_of(v.1));
        crate::linear::lemma_concat_all_wf(A::params_of(v.0), B::params_of(v.1));
    }
}

impl<A: Module, B: Module> Module for (A, B) {
    open spec fn fwd_pre(v: Self::V, x: TensorModel) -> bool {
        A::fwd_pre(v.0, x) && (match A::fwd_of(v.0, x) {
            Ok(y) => B::fwd_pre(v.1, y),
            Err(_) => true,
        })
    }

    open spec fn fwd_mut_pre(v: Self::V, x: TensorModel) -> bool {
        A::fwd_mut_pre(v.0, x) && (match A::fwd_mut_of(v.0, x).1 {
            Ok(y) => B::fwd_mut_pre(v.1, y),
            Err(_) => true,
        })
    }

    open spec fn fwd_of(v: Self::V, x: TensorModel) -> Result<TensorModel, Error> {
        match A::fwd_of(v.0, x) {
            Ok(y) => B::fwd_of(v.1, y),
            Err(e) => Err(e),
        }
    }

    open spec fn fwd_mut_of(v: Self::V, x: TensorModel) -> (Self::V, Result<TensorModel, Error>) {
        let (a2, r1) = A::fwd_mut_of(v.0, x);
        match r1 {
            Ok(y) => {
                let (b2, r2) = B::fwd_mut_of(v.1, y);
                ((a2, b2), r2)
            },
            Err(e) => ((a2, v.1), Err(e)),
        }
    }

    proof fn lemma_fwd_wf(v: Self::V, x: TensorModel) {
        A::lemma_fwd_wf(v.0, x);
        match A::fwd_of(v.0, x) {
            Ok(y) => B::lemma_fwd_wf(v.1, y),
            Err(_) => (),
        }
        match A::fwd_mut_of(v.0, x).1 {
            Ok(y) => B::lemma_fwd_wf(v.1, y),
            Err(_) => (),
        }
    }

    fn try_forward(&self, x: Tensor) -> (r: Result<Tensor, Error>) {
        let y = match self.0.try_forward(x) {
            Ok(y) => y,
            Err(e) => {
                return Err(e);
            },
        };
        proof {
            A::lemma_fwd_wf(self@.0, x@);
        }
        self.1.try_forward(y)
    }

    fn try_forward_mut(&mut self, x: Tensor) -> (r: Result<Tensor, Error>) {
        let y = match self.0.try_forward_mut(x) {
            Ok(y) => y,
            Err(e) => {
                return Err(e);
            },
        };
        proof {
            A::lemma_fwd_wf(old(self)@.0, x@);
        }
        self.1.try_forward_mut(y)
    }
}

impl<A: BuildOnDevice, B: BuildOnDevice> BuildOnDevice for (A, B) {
    type Built = (A::Built, B::Built);

    open spec fn c_wf(&self) -> bool {
        self.0.c_wf() && self.1.c_wf()
    }

    open spec fn can_alloc(&self) -> bool {
        self.0.can_alloc() && self.1.can_alloc()
    }

    open spec fn n_ids(&self) -> nat {
        self.0.n_ids() + self.1.n_ids()
    }

    open spec fn built_model(&self, id0: u64) -> <Self::Built as View>::V {
        (self.0.built_model(id0), self.1.built_model((id0 + self.0.n_ids()) as u64))
    }

    proof fn lemma_build_deterministic(&self, a: u64, b: u64) {
        self.0.lemma_build_deterministic(a, b);
        self.1.lemma_build_deterministic(
            (a + self.0.n_ids()) as u64,
            (b + self.0.n_ids()) as u64,
        );
        crate::vecs::lemma_shapes_concat(
            <A::Built as BuiltModule>::tensors_of(self.0.built_model(a)),
            <B::Built as BuiltModule>::tensors_of(self.1.built_model((a + self.0.n_ids()) as u64)),
        );
        crate::vecs::lemma_shapes_concat(
            <A::Built as BuiltModule>::tensors_of(self.0.built_model(b)),
            <B::Built as BuiltModule>::tensors_of(self.1.built_model((b + self.0.n_ids()) as u64)),
        );
        crate::vecs::lemma_shapes_concat(
            <A::Built as BuiltModule>::params_of(self.0.built_model(a)),
            <B::Built as BuiltModule>::params_of(self.1.built_model((a + self.0.n_ids()) as u64)),
        );
        crate::vecs::lemma_shapes_concat(
            <A::Built as BuiltModule>::params_of(self.0.built_model(b)),
            <B::Built as BuiltModule>::params_of(self.1.built_model((b + self.0.n_ids()) as u64)),
        );
    }

    fn try_build_on_device(&self, dev: &mut Device) -> (r: Result<(A::Built, B::Built), Error>) {
        let a = match self.0.try_build_on_device(dev) {
            Ok(a) => a,
            Err(e) => {
                return Err(e);
            },
        };
        let b = match self.1.try_build_on_device(dev) {
            Ok(b) => b,
            Err(e) => {
                return Err(e);
            },
        };
        proof {
            assert((a, b)@ =~= self.built_model(old(dev).next_id));
        }
        Ok((a, b))
    }
}

impl<A: ResetParams, B: ResetParams> ResetParams for (A, B) {
    open spec fn reset_rel(pre: Self::V, post: Self::V) -> bool {
        A::reset_rel(pre.0, post.0) && B::reset_rel(pre.1, post.1)
    }

    fn try_reset_params(&mut self, dev: &mut Device) -> (r: Result<(), Error>) {
        let r1 = self.0.try_reset_params(dev);
        match r1 {
            Ok(()) => {},
            Err(e) => {
                return Err(e);
            },
        }
        self.1.try_reset_params(dev)
    }
}

impl<A: UpdateParams, B: UpdateParams> UpdateParams for (A, B) {
    fn try_update_params<O: Optimizer>(
        &mut self,
        opt: &mut O,
        grads: &Gradients,
        missing: &mut Vec<u64>,
    ) -> (r: Result<(), Error>) {
        proof {
            crate::base::lemma_grads_match_split(
                A::params_of(old(self)@.0),
                B::params_of(old(self)@.1),
                grads@,
            );
        }
        let r1 = self.0.try_update_params(opt, grads, missing);
        match r1 {
            Ok(()) => {},
            Err(e) => {
                return Err(e);
            },
        }
        let r2 = self.1.try_update_params(opt, grads, missing);
        proof {
            let pa = A::params_of(old(self)@.0);
            let pb = B::params_of(old(self)@.1);
            crate::base::lemma_upd_fold_concat::<O>(old(opt)@, pa, pb, grads@, old(missing)@);
            crate::base::lemma_upd_fold_len::<O>(old(opt)@, pa, grads@, old(missing)@);
            let (o1, pa2, m1) = upd_fold::<O>(old(opt)@, pa, grads@, old(missing)@);
            let (o2, pb2, m2) = upd_fold::<O>(o1, pb, grads@, m1);
            assert((pa2 + pb2).take(pa.len() as int) =~= pa2);
            assert((pa2 + pb2).skip(pa.len() as int) =~= pb2);
            assert(final(self)@ =~= Self::with_params(old(self)@, pa2 + pb2));
        }
        r2
    }
}

impl<A: ZeroGrads, B: ZeroGrads> ZeroGrads for (A, B) {
    fn try_zero_grads(&self, grads: &mut Gradients) -> (r: Result<(), Error>) {
        let r1 = self.0.try_zero_grads(grads);
        match r1 {
            Ok(()) => {},
            Err(e) => {
                return Err(e);
            },
        }
        let r2 = self.1.try_zero_grads(grads);
        proof {
            crate::base::lemma_zg_fold_concat(
                A::params_of(self@.0),
                B::params_of(self@.1),
                old(grads)@,
            );
        }
        r2
    }
}


impl<A: crate::serialize::SaveSafeTensors, B: crate::serialize::SaveSafeTensors>
    crate::serialize::SaveSafeTensors for (A, B) {
    open spec fn recs_of(v: Self::V, loc: Seq<char>) -> Seq<crate::serialize::RecordModel> {
        A::recs_of(v.0, loc + "0/"@) + B::recs_of(v.1, loc + "1/"@)
    }

    open spec fn bytes_fit(v: Self::V) -> bool {
        A::bytes_fit(v.0) && B::bytes_fit(v.1)
    }

    fn write_safetensors(&self, loc: &str, out: &mut Vec<crate::serialize::Record>) {
        let p0 = crate::serialize::join_path(loc, "0/");
        self.0.write_safetensors(p0.as_str(), out);
        let p1 = crate::serialize::join_path(loc, "1/");
        self.1.write_safetensors(p1.as_str(), out);
        proof {
            assert(crate::vecs::views_of(final(out)@) =~= crate::vecs::views_of(old(out)@)
                + <(A, B) as crate::serialize::SaveSafeTensors>::recs_of(self@, loc@));
        }
    }
}

impl<A: crate::serialize::LoadSafeTensors, B: crate::serialize::LoadSafeTensors>
    crate::serialize::LoadSafeTensors for (A, B) {
    open spec fn load_model(
        v: Self::V,
        recs: Seq<crate::serialize::RecordModel>,
        loc: Seq<char>,
    ) -> (Self::V, Result<(), crate::error::LoadError>) {
        let (a2, r1) = A::load_model(v.0, recs, loc + "0/"@);
        match r1 {
            Err(e) => ((a2, v.1), Err(e)),
            Ok(()) => {
                let (b2, r2) = B::load_model(v.1, recs, loc + "1/"@);
                ((a2, b2), r2)
            },
        }
    }

    fn read_safetensors(&mut self, loc: &str, recs: &Vec<crate::serialize::Record>) -> (r: Result<
        (),
        crate::error::LoadError,
    >) {
        let p0 = crate::serialize::join_path(loc, "0/");
        let r1 = self.0.read_safetensors(p0.as_str(), recs);
        match r1 {
            Ok(()) => {},
            Err(e) => {
                proof {
                    assert(final(self)@ =~= <(A, B) as crate::serialize::LoadSafeTensors>::load_model(
                        old(self)@,
                        crate::vecs::views_of(recs@),
                        loc@,
                    ).0);
                }
                return Err(e);
            },
        }
        let p1 = crate::serialize::join_path(loc, "1/");
        let r2 = self.1.read_safetensors(p1.as_str(), recs);
        proof {
            assert(final(self)@ =~= <(A, B) as crate::serialize::LoadSafeTensors>::load_model(
                old(self)@,
                crate::vecs::views_of(recs@),
                loc@,
            ).0);
        }
        r2
    }
}
} // verus!

use vstd::prelude::*;

use crate::base::{upd_fold, BuildOnDevice, BuiltModule, Module, Optimizer, ResetParams,
    UpdateParams, ZeroGrads};
use crate::bias1d::{Bias1D, DeviceBias1D, DeviceBias1DV};
use crate::device::Device;
use crate::error::Error;
use crate::grads::Gradients;
use crate::matmul::{DeviceMatMul, DeviceMatMulV, MatMul};
use crate::tensor::{Tensor, TensorModel};

verus! {

/// A linear layer without bias: one weight-matrix multiply. The capability
/// implementations below are the sequential derivation rule written out for
/// this one-field aggregate.
#[derive(Clone, Copy, Debug, PartialEq, Eq, Structural, Default)]
pub struct LinearUnbiased {
    pub matmul: MatMul,
}

impl LinearUnbiased {
    pub fn new(inp: usize, out: usize) -> (r: LinearUnbiased)
        ensures
            r == (LinearUnbiased { matmul: MatMul { inp, out } }),
    {
        LinearUnbiased { matmul: MatMul { inp, out } }
    }
}

/// A linear layer: a weight-matrix multiply chained into an additive bias.
/// The capability implementations below are the sequential derivation rule
/// written out for this two-field aggregate: build, reset, update and
/// zero-gradient passes visit `matmul` then `bias`; forward folds the input
/// through both in declaration order.
#[derive(Clone, Copy, Debug, PartialEq, Eq, Structural, Default)]
pub struct Linear {
    pub matmul: MatMul,
    pub bias: Bias1D,
}

impl Linear {
    /// The configuration `new` constructs.
    pub open spec fn spec_new(inp: usize, out: usize) -> Linear {
        Linear { matmul: MatMul { inp, out }, bias: Bias1D(out) }
    }

    pub fn new(inp: usize, out: usize) -> (r: Linear)
        ensures
            r == (Linear { matmul: MatMul { inp, out }, bias: Bias1D(out) }),
    {
        Linear { matmul: MatMul { inp, out }, bias: Bias1D(out) }
    }
}

/// The built unbiased linear layer.
#[derive(Clone, Debug)]
pub struct DeviceLinearUnbiased {
    pub matmul: DeviceMatMul,
}

/// Model of a built unbiased linear layer.
#[verifier::ext_equal]
pub struct DeviceLinearUnbiasedV {
    pub matmul: DeviceMatMulV,
}

impl View for DeviceLinearUnbiased {
    type V = DeviceLinearUnbiasedV;

    open spec fn view(&self) -> DeviceLinearUnbiasedV {
        DeviceLinearUnbiasedV { matmul: self.matmul@ }
    }
}

impl BuiltModule for DeviceLinearUnbiased {
    open spec fn v_wf(v: DeviceLinearUnbiasedV) -> bool {
        DeviceMatMul::v_wf(v.matmul)
    }

    open spec fn tensors_of(v: DeviceLinearUnbiasedV) -> Seq<TensorModel> {
        DeviceMatMul::tensors_of(v.matmul)
    }

    open spec fn params_of(v: DeviceLinearUnbiasedV) -> Seq<TensorModel> {
        DeviceMatMul::params_of(v.matmul)
    }

    open spec fn with_params(v: DeviceLinearUnbiasedV, ps: Seq<TensorModel>)
        -> DeviceLinearUnbiasedV {
        DeviceLinearUnbiasedV { matmul: DeviceMatMul::with_params(v.matmul, ps) }
    }

    proof fn lemma_tensors_wf(v: DeviceLinearUnbiasedV) {
        DeviceMatMul::lemma_tensors_wf(v.matmul);
    }
}

impl Module for DeviceLinearUnbiased {
    open spec fn fwd_pre(v: DeviceLinearUnbiasedV, x: TensorModel) -> bool {
        true
    }

    open spec fn fwd_mut_pre(v: DeviceLinearUnbiasedV, x: TensorModel) -> bool {
        true
    }

    open spec fn fwd_of(v: DeviceLinearUnbiasedV, x: TensorModel) -> Result<TensorModel, Error> {
        DeviceMatMul::fwd_of(v.matmul, x)
    }

    open spec fn fwd_mut_of(v: DeviceLinearUnbiasedV, x: TensorModel) -> (
        DeviceLinearUnbiasedV,
        Result<TensorModel, Error>,
    ) {
        (v, DeviceMatMul::fwd_of(v.matmul, x))
    }

    proof fn lemma_fwd_wf(v: DeviceLinearUnbiasedV, x: TensorModel) {
        DeviceMatMul::lemma_fwd_wf(v.matmul, x);
    }

    fn try_forward(&self, x: Tensor) -> (r: Result<Tensor, Error>) {
        self.matmul.try_forward(x)
    }

    fn try_forward_mut(&mut self, x: Tensor) -> (r: Result<Tensor, Error>) {
        self.matmul.try_forward(x)
    }
}

impl BuildOnDevice for LinearUnbiased {
    type Built = DeviceLinearUnbiased;

    open spec fn c_wf(&self) -> bool {
        self.matmul.c_wf()
    }

    open spec fn can_alloc(&self) -> bool {
        self.matmul.can_alloc()
    }

    open spec fn n_ids(&self) -> nat {
        self.matmul.n_ids()
    }

    open spec fn built_model(&self, id0: u64) -> DeviceLinearUnbiasedV {
        DeviceLinearUnbiasedV { matmul: self.matmul.built_model(id0) }
    }

    proof fn lemma_build_deterministic(&self, a: u64, b: u64) {
        self.matmul.lemma_build_deterministic(a, b);
    }

    fn try_build_on_device(&self, dev: &mut Device) -> (r: Result<DeviceLinearUnbiased, Error>) {
        let matmul = match self.matmul.try_build_on_device(dev) {
            Ok(m) => m,
            Err(e) => {
                return Err(e);
            },
        };
        proof {
            assert(DeviceLinearUnbiased { matmul }@ =~= self.built_model(old(dev).next_id));
        }
        Ok(DeviceLinearUnbiased { matmul })
    }
}

impl ResetParams for DeviceLinearUnbiased {
    open spec fn reset_rel(pre: DeviceLinearUnbiasedV, post: DeviceLinearUnbiasedV) -> bool {
        DeviceMatMul::reset_rel(pre.matmul, post.matmul)
    }

    fn try_reset_params(&mut self, dev: &mut Device) -> (r: Result<(), Error>) {
        self.matmul.try_reset_params(dev)
    }
}

impl UpdateParams for DeviceLinearUnbiased {
    fn try_update_params<O: Optimizer>(
        &mut self,
        opt: &mut O,
        grads: &Gradients,
        missing: &mut Vec<u64>,
    ) -> (r: Result<(), Error>) {
        let res = self.matmul.try_update_params(opt, grads, missing);
        proof {
            assert(final(self)@ =~= Self::with_params(
                old(self)@,
                upd_fold::<O>(old(opt)@, Self::params_of(old(self)@), grads@, old(missing)@).1,
            ));
        }
        res
    }
}

impl ZeroGrads for DeviceLinearUnbiased {
    fn try_zero_grads(&self, grads: &mut Gradients) -> (r: Result<(), Error>) {
        self.matmul.try_zero_grads(grads)
    }
}

/// The built linear layer.
#[derive(Clone, Debug)]
pub struct DeviceLinear {
    pub matmul: DeviceMatMul,
    pub bias: DeviceBias1D,
}

/// Model of a built linear layer.
#[verifier::ext_equal]
pub struct DeviceLinearV {
    pub matmul: DeviceMatMulV,
    pub bias: DeviceBias1DV,
}

impl View for DeviceLinear {
    type V = DeviceLinearV;

    open spec fn view(&self) -> DeviceLinearV {
        DeviceLinearV { matmul: self.matmul@, bias: self.bias@ }
    }
}

impl BuiltModule for DeviceLinear {
    open spec fn v_wf(v: DeviceLinearV) -> bool {
        DeviceMatMul::v_wf(v.matmul) && DeviceBias1D::v_wf(v.bias)
    }

    open spec fn tensors_of(v: DeviceLinearV) -> Seq<TensorModel> {
        DeviceMatMul::tensors_of(v.matmul) + DeviceBias1D::tensors_of(v.bias)
    }

    open spec fn params_of(v: DeviceLinearV) -> Seq<TensorModel> {
        DeviceMatMul::params_of(v.matmul) + DeviceBias1D::params_of(v.bias)
    }

    open spec fn with_params(v: DeviceLinearV, ps: Seq<TensorModel>) -> DeviceLinearV {
        let n1 = DeviceMatMul::params_of(v.matmul).len() as int;
        DeviceLinearV {
            matmul: DeviceMatMul::with_params(v.matmul, ps.take(n1)),
            bias: DeviceBias1D::with_params(v.bias, ps.skip(n1)),
        }
    }

    proof fn lemma_tensors_wf(v: DeviceLinearV) {
        DeviceMatMul::lemma_tensors_wf(v.matmul);
        DeviceBias1D::lemma_tensors_wf(v.bias);
        lemma_concat_all_wf(
            DeviceMatMul::tensors_of(v.matmul),
            DeviceBias1D::tensors_of(v.bias),
        );
        lemma_concat_all_wf(DeviceMatMul::params_of(v.matmul), DeviceBias1D::params_of(v.bias));
    }
}

/// Concatenation preserves elementwise well-formedness.
pub proof fn lemma_concat_all_wf(a: Seq<TensorModel>, b: Seq<TensorModel>)
    requires
        forall|i: int| 0 <= i < a.len() ==> (#[trigger] a[i]).wf(),
        forall|i: int| 0 <= i < b.len() ==> (#[trigger] b[i]).wf(),
    ensures
        forall|i: int| 0 <= i < (a + b).len() ==> (#[trigger] (a + b)[i]).wf(),
{
    assert forall|i: int| 0 <= i < (a + b).len() implies (#[trigger] (a + b)[i]).wf() by {
        if i < a.len() {
            assert((a + b)[i] == a[i]);
        } else {
            assert((a + b)[i] == b[i - a.len()]);
        }
    }
}

impl Module for DeviceLinear {
    open spec fn fwd_pre(v: DeviceLinearV, x: TensorModel) -> bool {
        true
    }

    open spec fn fwd_mut_pre(v: DeviceLinearV, x: TensorModel) -> bool {
        true
    }

    open spec fn fwd_of(v: DeviceLinearV, x: TensorModel) -> Result<TensorModel, Error> {
        match DeviceMatMul::fwd_of(v.matmul, x) {
            Ok(y) => DeviceBias1D::fwd_of(v.bias, y),
            Err(e) => Err(e),
        }
    }

    open spec fn fwd_mut_of(v: DeviceLinearV, x: TensorModel) -> (
        DeviceLinearV,
        Result<TensorModel, Error>,
    ) {
        (v, DeviceLinear::fwd_of(v, x))
    }

    proof fn lemma_fwd_wf(v: DeviceLinearV, x: TensorModel) {
        DeviceMatMul::lemma_fwd_wf(v.matmul, x);
        match DeviceMatMul::fwd_of(v.matmul, x) {
            Ok(y) => DeviceBias1D::lemma_fwd_wf(v.bias, y),
            Err(_) => (),
        }
    }

    fn try_forward(&self, x: Tensor) -> (r: Result<Tensor, Error>) {
        let y = match self.matmul.try_forward(x) {
            Ok(y) => y,
            Err(e) => {
                return Err(e);
            },
        };
        proof {
            DeviceMatMul::lemma_fwd_wf(self@.matmul, x@);
        }
        self.bias.try_forward(y)
    }

    fn try_forward_mut(&mut self, x: Tensor) -> (r: Result<Tensor, Error>) {
        let y = match self.matmul.try_forward(x) {
            Ok(y) => y,
            Err(e) => {
                return Err(e);
            },
        };
        proof {
            DeviceMatMul::lemma_fwd_wf(old(self)@.matmul, x@);
        }
        self.bias.try_forward(y)
    }
}

impl BuildOnDevice for Linear {
    type Built = DeviceLinear;

    open spec fn c_wf(&self) -> bool {
        self.matmul.c_wf() && self.bias.c_wf()
    }

    open spec fn can_alloc(&self) -> bool {
        self.matmul.can_alloc() && self.bias.can_alloc()
    }

    open spec fn n_ids(&self) -> nat {
        self.matmul.n_ids() + self.bias.n_ids()
    }

    open spec fn built_model(&self, id0: u64) -> DeviceLinearV {
        DeviceLinearV {
            matmul: self.matmul.built_model(id0),
            bias: self.bias.built_model((id0 + self.matmul.n_ids()) as u64),
        }
    }

    proof fn lemma_build_deterministic(&self, a: u64, b: u64) {
        self.matmul.lemma_build_deterministic(a, b);
        self.bias.lemma_build_deterministic(
            (a + self.matmul.n_ids()) as u64,
            (b + self.matmul.n_ids()) as u64,
        );
        assert(crate::base::shapes_of(DeviceLinear::tensors_of(self.built_model(a)))
            =~= crate::base::shapes_of(DeviceLinear::tensors_of(self.built_model(b))));
        assert(crate::base::shapes_of(DeviceLinear::params_of(self.built_model(a)))
            =~= crate::base::shapes_of(DeviceLinear::params_of(self.built_model(b))));
    }

    fn try_build_on_device(&self, dev: &mut Device) -> (r: Result<DeviceLinear, Error>) {
        let matmul = match self.matmul.try_build_on_device(dev) {
            Ok(m) => m,
            Err(e) => {
                return Err(e);
            },
        };
        let bias = match self.bias.try_build_on_device(dev) {
            Ok(b) => b,
            Err(e) => {
                return Err(e);
            },
        };
        proof {
            assert(DeviceLinear { matmul, bias }@ =~= self.built_model(old(dev).next_id));
        }
        Ok(DeviceLinear { matmul, bias })
    }
}

impl ResetParams for DeviceLinear {
    open spec fn reset_rel(pre: DeviceLinearV, post: DeviceLinearV) -> bool {
        DeviceMatMul::reset_rel(pre.matmul, post.matmul) && DeviceBias1D::reset_rel(
            pre.bias,
            post.bias,
        )
    }

    fn try_reset_params(&mut self, dev: &mut Device) -> (r: Result<(), Error>) {
        let r1 = self.matmul.try_reset_params(dev);
        match r1 {
            Ok(()) => {},
            Err(e) => {
                return Err(e);
            },
        }
        self.bias.try_reset_params(dev)
    }
}

impl UpdateParams for DeviceLinear {
    fn try_update_params<O: Optimizer>(
        &mut self,
        opt: &mut O,
        grads: &Gradients,
        missing: &mut Vec<u64>,
    ) -> (r: Result<(), Error>) {
        proof {
            crate::base::lemma_grads_match_split(
                DeviceMatMul::params_of(old(self)@.matmul),
                DeviceBias1D::params_of(old(self)@.bias),
                grads@,
            );
        }
        let r1 = self.matmul.try_update_params(opt, grads, missing);
        match r1 {
            Ok(()) => {},
            Err(e) => {
                return Err(e);
            },
        }
        let r2 = self.bias.try_update_params(opt, grads, missing);
        proof {
            let pa = DeviceMatMul::params_of(old(self)@.matmul);
            let pb = DeviceBias1D::params_of(old(self)@.bias);
            crate::base::lemma_upd_fold_concat::<O>(old(opt)@, pa, pb, grads@, old(missing)@);
            crate::base::lemma_upd_fold_len::<O>(old(opt)@, pa, grads@, old(missing)@);
            let (o1, pa2, m1) = upd_fold::<O>(old(opt)@, pa, grads@, old(missing)@);
            let (o2, pb2, m2) = upd_fold::<O>(o1, pb, grads@, m1);
            assert((pa2 + pb2).take(pa.len() as int) =~= pa2);
            assert((pa2 + pb2).skip(pa.len() as int) =~= pb2);
            assert(final(self)@ =~= Self::with_params(old(self)@, pa2 + pb2));
        }
        r2
    }
}

impl ZeroGrads for DeviceLinear {
    fn try_zero_grads(&self, grads: &mut Gradients) -> (r: Result<(), Error>) {
        let r1 = self.matmul.try_zero_grads(grads);
        match r1 {
            Ok(()) => {},
            Err(e) => {
                return Err(e);
            },
        }
        let r2 = self.bias.try_zero_grads(grads);
        proof {
            crate::base::lemma_zg_fold_concat(
                DeviceMatMul::params_of(self@.matmul),
                DeviceBias1D::params_of(self@.bias),
                old(grads)@,
            );
        }
        r2
    }
}


impl crate::serialize::SaveSafeTensors for DeviceLinear {
    open spec fn recs_of(v: DeviceLinearV, loc: Seq<char>) -> Seq<crate::serialize::RecordModel> {
        DeviceMatMul::recs_of(v.matmul, loc + "matmul/"@) + DeviceBias1D::recs_of(
            v.bias,
            loc + "bias/"@,
        )
    }

    open spec fn bytes_fit(v: DeviceLinearV) -> bool {
        DeviceMatMul::bytes_fit(v.matmul) && DeviceBias1D::bytes_fit(v.bias)
    }

    fn write_safetensors(&self, loc: &str, out: &mut Vec<crate::serialize::Record>) {
        let p1 = crate::serialize::join_path(loc, "matmul/");
        self.matmul.write_safetensors(p1.as_str(), out);
        let p2 = crate::serialize::join_path(loc, "bias/");
        self.bias.write_safetensors(p2.as_str(), out);
        proof {
            assert(crate::vecs::views_of(final(out)@) =~= crate::vecs::views_of(old(out)@)
                + Self::recs_of(self@, loc@));
        }
    }
}

impl crate::serialize::LoadSafeTensors for DeviceLinear {
    open spec fn load_model(
        v: DeviceLinearV,
        recs: Seq<crate::serialize::RecordModel>,
        loc: Seq<char>,
    ) -> (DeviceLinearV, Result<(), crate::error::LoadError>) {
        let (m2, r1) = DeviceMatMul::load_model(v.matmul, recs, loc + "matmul/"@);
        match r1 {
            Err(e) => (DeviceLinearV { matmul: m2, bias: v.bias }, Err(e)),
            Ok(()) => {
                let (b2, r2) = DeviceBias1D::load_model(v.bias, recs, loc + "bias/"@);
                (DeviceLinearV { matmul: m2, bias: b2 }, r2)
            },
        }
    }

    fn read_safetensors(&mut self, loc: &str, recs: &Vec<crate::serialize::Record>) -> (r: Result<
        (),
        crate::error::LoadError,
    >) {
        let p1 = crate::serialize::join_path(loc, "matmul/");
        let r1 = self.matmul.read_safetensors(p1.as_str(), recs);
        match r1 {
            Ok(()) => {},
            Err(e) => {
                proof {
                    assert(final(self)@ =~= Self::load_model(
                        old(self)@,
                        crate::vecs::views_of(recs@),
                        loc@,
                    ).0);
                }
                return Err(e);
            },
        }
        let p2 = crate::serialize::join_path(loc, "bias/");
        let r2 = self.bias.read_safetensors(p2.as_str(), recs);
        proof {
            assert(final(self)@ =~= Self::load_model(
                old(self)@,
                crate::vecs::views_of(recs@),
                loc@,
            ).0);
        }
        r2
    }
}

impl crate::serialize::SaveSafeTensors for DeviceLinearUnbiased {
    open spec fn recs_of(v: DeviceLinearUnbiasedV, loc: Seq<char>) -> Seq<
        crate::serialize::RecordModel,
    > {
        DeviceMatMul::recs_of(v.matmul, loc + "matmul/"@)
    }

    open spec fn bytes_fit(v: DeviceLinearUnbiasedV) -> bool {
        DeviceMatMul::bytes_fit(v.matmul)
    }

    fn write_safetensors(&self, loc: &str, out: &mut Vec<crate::serialize::Record>) {
        let p1 = crate::serialize::join_path(loc, "matmul/");
        self.matmul.write_safetensors(p1.as_str(), out);
    }
}

impl crate::serialize::LoadSafeTensors for DeviceLinearUnbiased {
    open spec fn load_model(
        v: DeviceLinearUnbiasedV,
        recs: Seq<crate::serialize::RecordModel>,
        loc: Seq<char>,
    ) -> (DeviceLinearUnbiasedV, Result<(), crate::error::LoadError>) {
        let (m2, r1) = DeviceMatMul::load_model(v.matmul, recs, loc + "matmul/"@);
        (DeviceLinearUnbiasedV { matmul: m2 }, r1)
    }

    fn read_safetensors(&mut self, loc: &str, recs: &Vec<crate::serialize::Record>) -> (r: Result<
        (),
        crate::error::LoadError,
    >) {
        let p1 = crate::serialize::join_path(loc, "matmul/");
        let r1 = self.matmul.read_safetensors(p1.as_str(), recs);
        proof {
            assert(final(self)@ =~= Self::load_model(
                old(self)@,
                crate::vecs::views_of(recs@),
                loc@,
            ).0);
        }
        r1
    }
}
} // verus!

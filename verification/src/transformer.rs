use vstd::prelude::*;

use crate::base::{upd_fold, BuildOnDevice, BuiltModule, Module, Module2, Optimizer,
    ResetParams, UpdateParams, ZeroGrads};
use crate::device::Device;
use crate::error::Error;
use crate::grads::Gradients;
use crate::layer_norm1d::{DeviceLayerNorm1D, LayerNorm1D};
use crate::linear::{DeviceLinear, Linear};
use crate::relu::ReLU;
use crate::residual_add::ResidualAdd;
use crate::vecs::{chain2_fwd, chain2_pre, chain_fwd, chain_pre, ModuleList};
use crate::tensor::{Tensor, TensorModel};

verus! {

/// The transformer feed-forward block: a linear expansion, a rectifier, and
/// a linear projection back, chained sequentially.
#[derive(Debug)]
pub struct FeedForward {
    pub seq: (Linear, (ReLU, Linear)),
}

impl FeedForward {
    /// The configuration `new` constructs.
    pub open spec fn spec_new(model: usize, f: usize) -> FeedForward {
        FeedForward { seq: (Linear::spec_new(model, f), (ReLU, Linear::spec_new(f, model))) }
    }

    /// An expansion from `model` to `f` and a projection back.
    pub fn new(model: usize, f: usize) -> (r: FeedForward)
        ensures
            r == FeedForward::spec_new(model, f),
    {
        FeedForward { seq: (Linear::new(model, f), (ReLU, Linear::new(f, model))) }
    }
}

/// The built feed-forward block.
#[derive(Debug)]
pub struct DeviceFeedForward {
    pub seq: (DeviceLinear, (ReLU, DeviceLinear)),
}

impl View for DeviceFeedForward {
    type V = <(DeviceLinear, (ReLU, DeviceLinear)) as View>::V;

    open spec fn view(&self) -> Self::V {
        self.seq@
    }
}

/// An encoder block: residual self-attention (the attention module is the
/// caller's, supplied as the type parameter), layer normalization, a residual
/// feed-forward block, and a final layer normalization, chained sequentially.
#[derive(Debug)]
pub struct EncoderBlock<A> {
    pub seq: (ResidualAdd<A>, (LayerNorm1D, (ResidualAdd<FeedForward>, LayerNorm1D))),
}

impl<A> EncoderBlock<A> {
    /// Wires the supplied self-attention configuration into the block.
    pub fn new(attn: A, model: usize, f: usize) -> (r: EncoderBlock<A>)
        ensures
            r.seq.0 == ResidualAdd(attn),
            r.seq.1 == (
                LayerNorm1D(model),
                (ResidualAdd(FeedForward::spec_new(model, f)), LayerNorm1D(model)),
            ),
    {
        EncoderBlock {
            seq: (
                ResidualAdd(attn),
                (LayerNorm1D(model), (ResidualAdd(FeedForward::new(model, f)), LayerNorm1D(model))),
            ),
        }
    }
}

/// The built encoder block, generic over the built self-attention module.
#[derive(Debug)]
pub struct DeviceEncoderBlock<B> {
    pub seq: (
        ResidualAdd<B>,
        (DeviceLayerNorm1D, (ResidualAdd<DeviceFeedForward>, DeviceLayerNorm1D)),
    ),
}

impl<B: View> View for DeviceEncoderBlock<B> {
    type V = <(
        ResidualAdd<B>,
        (DeviceLayerNorm1D, (ResidualAdd<DeviceFeedForward>, DeviceLayerNorm1D)),
    ) as View>::V;

    open spec fn view(&self) -> Self::V {
        self.seq@
    }
}

impl BuiltModule for DeviceFeedForward {
    open spec fn v_wf(v: Self::V) -> bool {
        <(DeviceLinear, (ReLU, DeviceLinear))>::v_wf(v)
    }

    open spec fn tensors_of(v: Self::V) -> Seq<TensorModel> {
        <(DeviceLinear, (ReLU, DeviceLinear))>::tensors_of(v)
    }

    open spec fn params_of(v: Self::V) -> Seq<TensorModel> {
        <(DeviceLinear, (ReLU, DeviceLinear))>::params_of(v)
    }

    open spec fn with_params(v: Self::V, ps: Seq<TensorModel>) -> Self::V {
        <(DeviceLinear, (ReLU, DeviceLinear))>::with_params(v, ps)
    }

    proof fn lemma_tensors_wf(v: Self::V) {
        <(DeviceLinear, (ReLU, DeviceLinear))>::lemma_tensors_wf(v);
    }
}

impl Module for DeviceFeedForward {
    open spec fn fwd_pre(v: Self::V, x: TensorModel) -> bool {
        <(DeviceLinear, (ReLU, DeviceLinear))>::fwd_pre(v, x)
    }

    open spec fn fwd_mut_pre(v: Self::V, x: TensorModel) -> bool {
        <(DeviceLinear, (ReLU, DeviceLinear))>::fwd_mut_pre(v, x)
    }

    open spec fn fwd_of(v: Self::V, x: TensorModel) -> Result<TensorModel, Error> {
        <(DeviceLinear, (ReLU, DeviceLinear))>::fwd_of(v, x)
    }

    open spec fn fwd_mut_of(v: Self::V, x: TensorModel) -> (Self::V, Result<TensorModel, Error>) {
        <(DeviceLinear, (ReLU, DeviceLinear))>::fwd_mut_of(v, x)
    }

    proof fn lemma_fwd_wf(v: Self::V, x: TensorModel) {
        <(DeviceLinear, (ReLU, DeviceLinear))>::lemma_fwd_wf(v, x);
    }

    fn try_forward(&self, x: Tensor) -> (r: Result<Tensor, Error>) {
        self.seq.try_forward(x)
    }

    fn try_forward_mut(&mut self, x: Tensor) -> (r: Result<Tensor, Error>) {
        let r = self.seq.try_forward_mut(x);
        proof {
            assert(final(self)@ == Self::fwd_mut_of(old(self)@, x@).0);
        }
        r
    }
}

impl BuildOnDevice for FeedForward {
    type Built = DeviceFeedForward;

    open spec fn c_wf(&self) -> bool {
        self.seq.c_wf()
    }

    open spec fn can_alloc(&self) -> bool {
        self.seq.can_alloc()
    }

    open spec fn n_ids(&self) -> nat {
        self.seq.n_ids()
    }

    open spec fn built_model(&self, id0: u64) -> <DeviceFeedForward as View>::V {
        self.seq.built_model(id0)
    }

    proof fn lemma_build_deterministic(&self, a: u64, b: u64) {
        self.seq.lemma_build_deterministic(a, b);
    }

    fn try_build_on_device(&self, dev: &mut Device) -> (r: Result<DeviceFeedForward, Error>) {
        match self.seq.try_build_on_device(dev) {
            Ok(seq) => Ok(DeviceFeedForward { seq }),
            Err(e) => Err(e),
        }
    }
}

impl ResetParams for DeviceFeedForward {
    open spec fn reset_rel(pre: Self::V, post: Self::V) -> bool {
        <(DeviceLinear, (ReLU, DeviceLinear))>::reset_rel(pre, post)
    }

    fn try_reset_params(&mut self, dev: &mut Device) -> (r: Result<(), Error>) {
        self.seq.try_reset_params(dev)
    }
}

impl UpdateParams for DeviceFeedForward {
    fn try_update_params<O: Optimizer>(
        &mut self,
        opt: &mut O,
        grads: &Gradients,
        missing: &mut Vec<u64>,
    ) -> (r: Result<(), Error>) {
        let r = self.seq.try_update_params(opt, grads, missing);
        proof {
            assert(final(self)@ == Self::with_params(
                old(self)@,
                upd_fold::<O>(old(opt)@, Self::params_of(old(self)@), grads@, old(missing)@).1,
            ));
        }
        r
    }
}

impl ZeroGrads for DeviceFeedForward {
    fn try_zero_grads(&self, grads: &mut Gradients) -> (r: Result<(), Error>) {
        self.seq.try_zero_grads(grads)
    }
}

impl<B: BuiltModule> BuiltModule for DeviceEncoderBlock<B> {
    open spec fn v_wf(v: Self::V) -> bool {
        <(
            ResidualAdd<B>,
            (DeviceLayerNorm1D, (ResidualAdd<DeviceFeedForward>, DeviceLayerNorm1D)),
        )>::v_wf(v)
    }

    open spec fn tensors_of(v: Self::V) -> Seq<TensorModel> {
        <(
            ResidualAdd<B>,
            (DeviceLayerNorm1D, (ResidualAdd<DeviceFeedForward>, DeviceLayerNorm1D)),
        )>::tensors_of(v)
    }

    open spec fn params_of(v: Self::V) -> Seq<TensorModel> {
        <(
            ResidualAdd<B>,
            (DeviceLayerNorm1D, (ResidualAdd<DeviceFeedForward>, DeviceLayerNorm1D)),
        )>::params_of(v)
    }

    open spec fn with_params(v: Self::V, ps: Seq<TensorModel>) -> Self::V {
        <(
            ResidualAdd<B>,
            (DeviceLayerNorm1D, (ResidualAdd<DeviceFeedForward>, DeviceLayerNorm1D)),
        )>::with_params(v, ps)
    }

    proof fn lemma_tensors_wf(v: Self::V) {
        <(
            ResidualAdd<B>,
            (DeviceLayerNorm1D, (ResidualAdd<DeviceFeedForward>, DeviceLayerNorm1D)),
        )>::lemma_tensors_wf(v);
    }
}

impl<B: Module> Module for DeviceEncoderBlock<B> {
    open spec fn fwd_pre(v: Self::V, x: TensorModel) -> bool {
        <(
            ResidualAdd<B>,
            (DeviceLayerNorm1D, (ResidualAdd<DeviceFeedForward>, DeviceLayerNorm1D)),
        )>::fwd_pre(v, x)
    }

    open spec fn fwd_mut_pre(v: Self::V, x: TensorModel) -> bool {
        <(
            ResidualAdd<B>,
            (DeviceLayerNorm1D, (ResidualAdd<DeviceFeedForward>, DeviceLayerNorm1D)),
        )>::fwd_mut_pre(v, x)
    }

    open spec fn fwd_of(v: Self::V, x: TensorModel) -> Result<TensorModel, Error> {
        <(
            ResidualAdd<B>,
            (DeviceLayerNorm1D, (ResidualAdd<DeviceFeedForward>, DeviceLayerNorm1D)),
        )>::fwd_of(v, x)
    }

    open spec fn fwd_mut_of(v: Self::V, x: TensorModel) -> (Self::V, Result<TensorModel, Error>) {
        <(
            ResidualAdd<B>,
            (DeviceLayerNorm1D, (ResidualAdd<DeviceFeedForward>, DeviceLayerNorm1D)),
        )>::fwd_mut_of(v, x)
    }

    proof fn lemma_fwd_wf(v: Self::V, x: TensorModel) {
        <(
            ResidualAdd<B>,
            (DeviceLayerNorm1D, (ResidualAdd<DeviceFeedForward>, DeviceLayerNorm1D)),
        )>::lemma_fwd_wf(v, x);
    }

    fn try_forward(&self, x: Tensor) -> (r: Result<Tensor, Error>) {
        self.seq.try_forward(x)
    }

    fn try_forward_mut(&mut self, x: Tensor) -> (r: Result<Tensor, Error>) {
        let r = self.seq.try_forward_mut(x);
        proof {
            assert(final(self)@ == Self::fwd_mut_of(old(self)@, x@).0);
        }
        r
    }
}

impl<A: BuildOnDevice> BuildOnDevice for EncoderBlock<A> {
    type Built = DeviceEncoderBlock<A::Built>;

    open spec fn c_wf(&self) -> bool {
        self.seq.c_wf()
    }

    open spec fn can_alloc(&self) -> bool {
        self.seq.can_alloc()
    }

    open spec fn n_ids(&self) -> nat {
        self.seq.n_ids()
    }

    open spec fn built_model(&self, id0: u64) -> <Self::Built as View>::V {
        self.seq.built_model(id0)
    }

    proof fn lemma_build_deterministic(&self, a: u64, b: u64) {
        self.seq.lemma_build_deterministic(a, b);
    }

    fn try_build_on_device(&self, dev: &mut Device) -> (r: Result<
        DeviceEncoderBlock<A::Built>,
        Error,
    >) {
        match self.seq.try_build_on_device(dev) {
            Ok(seq) => Ok(DeviceEncoderBlock { seq }),
            Err(e) => Err(e),
        }
    }
}

impl<B: ResetParams> ResetParams for DeviceEncoderBlock<B> {
    open spec fn reset_rel(pre: Self::V, post: Self::V) -> bool {
        <(
            ResidualAdd<B>,
            (DeviceLayerNorm1D, (ResidualAdd<DeviceFeedForward>, DeviceLayerNorm1D)),
        )>::reset_rel(pre, post)
    }

    fn try_reset_params(&mut self, dev: &mut Device) -> (r: Result<(), Error>) {
        self.seq.try_reset_params(dev)
    }
}

impl<B: UpdateParams> UpdateParams for DeviceEncoderBlock<B> {
    fn try_update_params<O: Optimizer>(
        &mut self,
        opt: &mut O,
        grads: &Gradients,
        missing: &mut Vec<u64>,
    ) -> (r: Result<(), Error>) {
        let r = self.seq.try_update_params(opt, grads, missing);
        proof {
            assert(final(self)@ == Self::with_params(
                old(self)@,
                upd_fold::<O>(old(opt)@, Self::params_of(old(self)@), grads@, old(missing)@).1,
            ));
        }
        r
    }
}

impl<B: ZeroGrads> ZeroGrads for DeviceEncoderBlock<B> {
    fn try_zero_grads(&self, grads: &mut Gradients) -> (r: Result<(), Error>) {
        self.seq.try_zero_grads(grads)
    }
}


/// A decoder block: residual self-attention, normalization, cross-attention
/// over the encoder memory inside a residual connection, normalization, a
/// residual feed-forward block, and a final normalization. The two attention
/// slots are the caller's; everything around them is the block's own
/// sequential and residual wiring.
#[derive(Debug)]
pub struct DecoderBlock<SA, CA> {
    pub parts: (
        ResidualAdd<SA>,
        (LayerNorm1D, (CA, (LayerNorm1D, (ResidualAdd<FeedForward>, LayerNorm1D)))),
    ),
}

impl<SA, CA> DecoderBlock<SA, CA> {
    /// Wires the supplied self-attention and cross-attention configurations
    /// into the block.
    pub fn new(self_attn: SA, cross_attn: CA, model: usize, f: usize) -> (r: DecoderBlock<SA, CA>)
        ensures
            r.parts.0 == ResidualAdd(self_attn),
            r.parts.1.0 == LayerNorm1D(model),
            r.parts.1.1.0 == cross_attn,
            r.parts.1.1.1 == (
                LayerNorm1D(model),
                (ResidualAdd(FeedForward::spec_new(model, f)), LayerNorm1D(model)),
            ),
    {
        DecoderBlock {
            parts: (
                ResidualAdd(self_attn),
                (
                    LayerNorm1D(model),
                    (
                        cross_attn,
                        (
                            LayerNorm1D(model),
                            (ResidualAdd(FeedForward::new(model, f)), LayerNorm1D(model)),
                        ),
                    ),
                ),
            ),
        }
    }
}

/// The built decoder block, generic over the built attention modules.
#[derive(Debug)]
pub struct DeviceDecoderBlock<SB, CB> {
    pub parts: (
        ResidualAdd<SB>,
        (
            DeviceLayerNorm1D,
            (CB, (DeviceLayerNorm1D, (ResidualAdd<DeviceFeedForward>, DeviceLayerNorm1D))),
        ),
    ),
}

impl<SB: View, CB: View> View for DeviceDecoderBlock<SB, CB> {
    type V = <(
        ResidualAdd<SB>,
        (
            DeviceLayerNorm1D,
            (CB, (DeviceLayerNorm1D, (ResidualAdd<DeviceFeedForward>, DeviceLayerNorm1D))),
        ),
    ) as View>::V;

    open spec fn view(&self) -> Self::V {
        self.parts@
    }
}

impl<SB: BuiltModule, CB: BuiltModule> BuiltModule for DeviceDecoderBlock<SB, CB> {
    open spec fn v_wf(v: Self::V) -> bool {
        <(
            ResidualAdd<SB>,
            (
                DeviceLayerNorm1D,
                (CB, (DeviceLayerNorm1D, (ResidualAdd<DeviceFeedForward>, DeviceLayerNorm1D))),
            ),
        )>::v_wf(v)
    }

    open spec fn tensors_of(v: Self::V) -> Seq<TensorModel> {
        <(
            ResidualAdd<SB>,
            (
                DeviceLayerNorm1D,
                (CB, (DeviceLayerNorm1D, (ResidualAdd<DeviceFeedForward>, DeviceLayerNorm1D))),
            ),
        )>::tensors_of(v)
    }

    open spec fn params_of(v: Self::V) -> Seq<TensorModel> {
        <(
            ResidualAdd<SB>,
            (
                DeviceLayerNorm1D,
                (CB, (DeviceLayerNorm1D, (ResidualAdd<DeviceFeedForward>, DeviceLayerNorm1D))),
            ),
        )>::params_of(v)
    }

    open spec fn with_params(v: Self::V, ps: Seq<TensorModel>) -> Self::V {
        <(
            ResidualAdd<SB>,
            (
                DeviceLayerNorm1D,
                (CB, (DeviceLayerNorm1D, (ResidualAdd<DeviceFeedForward>, DeviceLayerNorm1D))),
            ),
        )>::with_params(v, ps)
    }

    proof fn lemma_tensors_wf(v: Self::V) {
        <(
            ResidualAdd<SB>,
            (
                DeviceLayerNorm1D,
                (CB, (DeviceLayerNorm1D, (ResidualAdd<DeviceFeedForward>, DeviceLayerNorm1D))),
            ),
        )>::lemma_tensors_wf(v);
    }
}

impl<SB: Module, CB: Module2> Module2 for DeviceDecoderBlock<SB, CB> {
    open spec fn fwd2_pre(v: Self::V, tgt: TensorModel, mem: TensorModel) -> bool {
        ResidualAdd::<SB>::fwd_pre(v.0, tgt) && (match ResidualAdd::<SB>::fwd_of(v.0, tgt) {
            Ok(x1) => match DeviceLayerNorm1D::fwd_of(v.1.0, x1) {
                Ok(x2) => CB::fwd2_pre(v.1.1.0, x2, mem),
                Err(_) => true,
            },
            Err(_) => true,
        })
    }

    open spec fn fwd2_of(v: Self::V, tgt: TensorModel, mem: TensorModel) -> Result<
        TensorModel,
        Error,
    > {
        match ResidualAdd::<SB>::fwd_of(v.0, tgt) {
            Err(e) => Err(e),
            Ok(x1) => match DeviceLayerNorm1D::fwd_of(v.1.0, x1) {
                Err(e) => Err(e),
                Ok(x2) => match CB::fwd2_of(v.1.1.0, x2, mem) {
                    Err(e) => Err(e),
                    Ok(x3) => match crate::ops::add_model(x3, x2) {
                        Err(e) => Err(e),
                        Ok(x4) => match DeviceLayerNorm1D::fwd_of(v.1.1.1.0, x4) {
                            Err(e) => Err(e),
                            Ok(x5) => match ResidualAdd::<DeviceFeedForward>::fwd_of(
                                v.1.1.1.1.0,
                                x5,
                            ) {
                                Err(e) => Err(e),
                                Ok(x6) => DeviceLayerNorm1D::fwd_of(v.1.1.1.1.1, x6),
                            },
                        },
                    },
                },
            },
        }
    }

    proof fn lemma_fwd2_wf(v: Self::V, tgt: TensorModel, mem: TensorModel) {
    }

    fn try_forward2(&self, tgt: Tensor, mem: Tensor) -> (r: Result<Tensor, Error>) {
        let x1 = match self.parts.0.try_forward(tgt) {
            Ok(t) => t,
            Err(e) => {
                return Err(e);
            },
        };
        proof {
            ResidualAdd::<SB>::lemma_fwd_wf(self@.0, tgt@);
        }
        let x2 = match self.parts.1.0.try_forward(x1) {
            Ok(t) => t,
            Err(e) => {
                return Err(e);
            },
        };
        // the stream after the first normalization also feeds the residual
        // connection around the cross-attention
        let x2r = x2.clone();
        let x3 = match self.parts.1.1.0.try_forward2(x2, mem) {
            Ok(t) => t,
            Err(e) => {
                return Err(e);
            },
        };
        proof {
            CB::lemma_fwd2_wf(self@.1.1.0, x2r@, mem@);
        }
        let x4 = match crate::ops::try_add(&x3, &x2r) {
            Ok(t) => t,
            Err(e) => {
                return Err(e);
            },
        };
        let x5 = match self.parts.1.1.1.0.try_forward(x4) {
            Ok(t) => t,
            Err(e) => {
                return Err(e);
            },
        };
        let x6 = match self.parts.1.1.1.1.0.try_forward(x5) {
            Ok(t) => t,
            Err(e) => {
                return Err(e);
            },
        };
        proof {
            ResidualAdd::<DeviceFeedForward>::lemma_fwd_wf(self@.1.1.1.1.0, x5@);
        }
        self.parts.1.1.1.1.1.try_forward(x6)
    }
}

impl<SA: BuildOnDevice, CA: BuildOnDevice> BuildOnDevice for DecoderBlock<SA, CA> {
    type Built = DeviceDecoderBlock<SA::Built, CA::Built>;

    open spec fn c_wf(&self) -> bool {
        self.parts.c_wf()
    }

    open spec fn can_alloc(&self) -> bool {
        self.parts.can_alloc()
    }

    open spec fn n_ids(&self) -> nat {
        self.parts.n_ids()
    }

    open spec fn built_model(&self, id0: u64) -> <Self::Built as View>::V {
        self.parts.built_model(id0)
    }

    proof fn lemma_build_deterministic(&self, a: u64, b: u64) {
        self.parts.lemma_build_deterministic(a, b);
    }

    fn try_build_on_device(&self, dev: &mut Device) -> (r: Result<Self::Built, Error>) {
        match self.parts.try_build_on_device(dev) {
            Ok(parts) => {
                let built = DeviceDecoderBlock { parts };
                proof {
                    assert(built@ == built.parts@);
                    assert(built@ == self.built_model(old(dev).next_id));
                    assert(<Self::Built as BuiltModule>::v_wf(built@));
                    assert(final(dev).next_id == old(dev).next_id + self.n_ids());
                }
                Ok(built)
            },
            Err(e) => Err(e),
        }
    }
}

impl<SB: ResetParams, CB: ResetParams> ResetParams for DeviceDecoderBlock<SB, CB> {
    open spec fn reset_rel(pre: Self::V, post: Self::V) -> bool {
        <(
            ResidualAdd<SB>,
            (
                DeviceLayerNorm1D,
                (CB, (DeviceLayerNorm1D, (ResidualAdd<DeviceFeedForward>, DeviceLayerNorm1D))),
            ),
        )>::reset_rel(pre, post)
    }

    fn try_reset_params(&mut self, dev: &mut Device) -> (r: Result<(), Error>) {
        self.parts.try_reset_params(dev)
    }
}

impl<SB: UpdateParams, CB: UpdateParams> UpdateParams for DeviceDecoderBlock<SB, CB> {
    fn try_update_params<O: Optimizer>(
        &mut self,
        opt: &mut O,
        grads: &Gradients,
        missing: &mut Vec<u64>,
    ) -> (r: Result<(), Error>) {
        let r = self.parts.try_update_params(opt, grads, missing);
        proof {
            assert(final(self)@ == Self::with_params(
                old(self)@,
                upd_fold::<O>(old(opt)@, Self::params_of(old(self)@), grads@, old(missing)@).1,
            ));
        }
        r
    }
}

impl<SB: ZeroGrads, CB: ZeroGrads> ZeroGrads for DeviceDecoderBlock<SB, CB> {
    fn try_zero_grads(&self, grads: &mut Gradients) -> (r: Result<(), Error>) {
        self.parts.try_zero_grads(grads)
    }
}


/// Adapts a single-input module to the two-input slot by running it on the
/// target stream and ignoring the memory: the degenerate cross-attention.
#[derive(Clone, Copy, Debug)]
pub struct TargetOnly<T>(pub T);

/// Model of the adapter: the model of the wrapped module.
pub struct TargetOnlyV<M>(pub M);

impl<T: View> View for TargetOnly<T> {
    type V = TargetOnlyV<T::V>;

    open spec fn view(&self) -> TargetOnlyV<T::V> {
        TargetOnlyV(self.0@)
    }
}

impl<T: BuiltModule> BuiltModule for TargetOnly<T> {
    open spec fn v_wf(v: Self::V) -> bool {
        T::v_wf(v.0)
    }

    open spec fn tensors_of(v: Self::V) -> Seq<TensorModel> {
        T::tensors_of(v.0)
    }

    open spec fn params_of(v: Self::V) -> Seq<TensorModel> {
        T::params_of(v.0)
    }

    open spec fn with_params(v: Self::V, ps: Seq<TensorModel>) -> Self::V {
        TargetOnlyV(T::with_params(v.0, ps))
    }

    proof fn lemma_tensors_wf(v: Self::V) {
        T::lemma_tensors_wf(v.0);
    }
}

impl<T: Module> Module2 for TargetOnly<T> {
    open spec fn fwd2_pre(v: Self::V, a: TensorModel, b: TensorModel) -> bool {
        T::fwd_pre(v.0, a)
    }

    open spec fn fwd2_of(v: Self::V, a: TensorModel, b: TensorModel) -> Result<
        TensorModel,
        Error,
    > {
        T::fwd_of(v.0, a)
    }

    proof fn lemma_fwd2_wf(v: Self::V, a: TensorModel, b: TensorModel) {
        T::lemma_fwd_wf(v.0, a);
    }

    fn try_forward2(&self, a: Tensor, b: Tensor) -> (r: Result<Tensor, Error>) {
        self.0.try_forward(a)
    }
}

impl<C: BuildOnDevice> BuildOnDevice for TargetOnly<C> {
    type Built = TargetOnly<C::Built>;

    open spec fn c_wf(&self) -> bool {
        self.0.c_wf()
    }

    open spec fn can_alloc(&self) -> bool {
        self.0.can_alloc()
    }

    open spec fn n_ids(&self) -> nat {
        self.0.n_ids()
    }

    open spec fn built_model(&self, id0: u64) -> <Self::Built as View>::V {
        TargetOnlyV(self.0.built_model(id0))
    }

    proof fn lemma_build_deterministic(&self, a: u64, b: u64) {
        self.0.lemma_build_deterministic(a, b);
    }

    fn try_build_on_device(&self, dev: &mut Device) -> (r: Result<TargetOnly<C::Built>, Error>) {
        match self.0.try_build_on_device(dev) {
            Ok(t) => {
                let built = TargetOnly(t);
                proof {
                    assert(built@ == self.built_model(old(dev).next_id));
                    assert(<Self::Built as BuiltModule>::v_wf(built@));
                    assert(final(dev).next_id == old(dev).next_id + self.n_ids());
                }
                Ok(built)
            },
            Err(e) => Err(e),
        }
    }
}

impl<T: ResetParams> ResetParams for TargetOnly<T> {
    open spec fn reset_rel(pre: Self::V, post: Self::V) -> bool {
        T::reset_rel(pre.0, post.0)
    }

    fn try_reset_params(&mut self, dev: &mut Device) -> (r: Result<(), Error>) {
        self.0.try_reset_params(dev)
    }
}

impl<T: UpdateParams> UpdateParams for TargetOnly<T> {
    fn try_update_params<O: Optimizer>(
        &mut self,
        opt: &mut O,
        grads: &Gradients,
        missing: &mut Vec<u64>,
    ) -> (r: Result<(), Error>) {
        let r = self.0.try_update_params(opt, grads, missing);
        proof {
            assert(final(self)@ =~= Self::with_params(
                old(self)@,
                upd_fold::<O>(old(opt)@, Self::params_of(old(self)@), grads@, old(missing)@).1,
            ));
        }
        r
    }
}

impl<T: ZeroGrads> ZeroGrads for TargetOnly<T> {
    fn try_zero_grads(&self, grads: &mut Gradients) -> (r: Result<(), Error>) {
        self.0.try_zero_grads(grads)
    }
}

/// A transformer: a stack of encoder blocks over the source stream, then a
/// stack of decoder blocks that consume the target stream together with the
/// encoded memory. Both attention slots stay the caller's.
#[derive(Debug)]
pub struct Transformer<A, SA, CA> {
    pub parts: (ModuleList<EncoderBlock<A>>, ModuleList<DecoderBlock<SA, CA>>),
}

impl<A, SA, CA> Transformer<A, SA, CA> {
    /// Assembles the two stacks.
    pub fn new(
        encoder: ModuleList<EncoderBlock<A>>,
        decoder: ModuleList<DecoderBlock<SA, CA>>,
    ) -> (r: Transformer<A, SA, CA>)
        ensures
            r.parts.0.0@ == encoder.0@,
            r.parts.1.0@ == decoder.0@,
    {
        Transformer { parts: (encoder, decoder) }
    }
}

impl<A: Copy, SA: Copy, CA: Copy> Transformer<A, SA, CA> {
    /// Assembles `n_enc` identical encoder blocks and `n_dec` identical
    /// decoder blocks around the given attention configurations.
    pub fn new_uniform(
        attn: A,
        self_attn: SA,
        cross_attn: CA,
        model: usize,
        f: usize,
        n_enc: usize,
        n_dec: usize,
    ) -> (r: Transformer<A, SA, CA>)
        ensures
            r.parts.0.0@.len() == n_enc,
            r.parts.1.0@.len() == n_dec,
            forall|i: int|
                0 <= i < n_enc ==> (#[trigger] r.parts.0.0@[i]).seq == (
                    ResidualAdd(attn),
                    (
                        LayerNorm1D(model),
                        (ResidualAdd(FeedForward::spec_new(model, f)), LayerNorm1D(model)),
                    ),
                ),
            forall|i: int|
                0 <= i < n_dec ==> (#[trigger] r.parts.1.0@[i]).parts == (
                    ResidualAdd(self_attn),
                    (
                        LayerNorm1D(model),
                        (
                            cross_attn,
                            (
                                LayerNorm1D(model),
                                (ResidualAdd(FeedForward::spec_new(model, f)), LayerNorm1D(model)),
                            ),
                        ),
                    ),
                ),
    {
        let mut encoder: Vec<EncoderBlock<A>> = Vec::new();
        let mut i: usize = 0;
        while i < n_enc
            invariant
                0 <= i <= n_enc,
                encoder@.len() == i,
                forall|j: int|
                    0 <= j < i ==> (#[trigger] encoder@[j]).seq == (
                        ResidualAdd(attn),
                        (
                            LayerNorm1D(model),
                            (ResidualAdd(FeedForward::spec_new(model, f)), LayerNorm1D(model)),
                        ),
                    ),
            decreases n_enc - i,
        {
            encoder.push(EncoderBlock::new(attn, model, f));
            i += 1;
        }
        let mut decoder: Vec<DecoderBlock<SA, CA>> = Vec::new();
        let mut j: usize = 0;
        while j < n_dec
            invariant
                0 <= j <= n_dec,
                decoder@.len() == j,
                forall|k: int|
                    0 <= k < j ==> (#[trigger] decoder@[k]).parts == (
                        ResidualAdd(self_attn),
                        (
                            LayerNorm1D(model),
                            (
                                cross_attn,
                                (
                                    LayerNorm1D(model),
                                    (
                                        ResidualAdd(FeedForward::spec_new(model, f)),
                                        LayerNorm1D(model),
                                    ),
                                ),
                            ),
                        ),
                    ),
            decreases n_dec - j,
        {
            decoder.push(DecoderBlock::new(self_attn, cross_attn, model, f));
            j += 1;
        }
        Transformer { parts: (ModuleList(encoder), ModuleList(decoder)) }
    }
}

/// The built transformer.
#[derive(Debug)]
pub struct DeviceTransformer<B, SB, CB> {
    pub parts: (ModuleList<DeviceEncoderBlock<B>>, ModuleList<DeviceDecoderBlock<SB, CB>>),
}

impl<B: View, SB: View, CB: View> View for DeviceTransformer<B, SB, CB> {
    type V = <(ModuleList<DeviceEncoderBlock<B>>, ModuleList<DeviceDecoderBlock<SB, CB>>) as View>::V;

    open spec fn view(&self) -> Self::V {
        self.parts@
    }
}

impl<B: BuiltModule, SB: BuiltModule, CB: BuiltModule> BuiltModule for DeviceTransformer<
    B,
    SB,
    CB,
> {
    open spec fn v_wf(v: Self::V) -> bool {
        <(ModuleList<DeviceEncoderBlock<B>>, ModuleList<DeviceDecoderBlock<SB, CB>>)>::v_wf(v)
    }

    open spec fn tensors_of(v: Self::V) -> Seq<TensorModel> {
        <(ModuleList<DeviceEncoderBlock<B>>, ModuleList<DeviceDecoderBlock<SB, CB>>)>::tensors_of(
            v,
        )
    }

    open spec fn params_of(v: Self::V) -> Seq<TensorModel> {
        <(ModuleList<DeviceEncoderBlock<B>>, ModuleList<DeviceDecoderBlock<SB, CB>>)>::params_of(v)
    }

    open spec fn with_params(v: Self::V, ps: Seq<TensorModel>) -> Self::V {
        <(ModuleList<DeviceEncoderBlock<B>>, ModuleList<DeviceDecoderBlock<SB, CB>>)>::with_params(
            v,
            ps,
        )
    }

    proof fn lemma_tensors_wf(v: Self::V) {
        <(
            ModuleList<DeviceEncoderBlock<B>>,
            ModuleList<DeviceDecoderBlock<SB, CB>>,
        )>::lemma_tensors_wf(v);
    }
}

impl<B: Module, SB: Module, CB: Module2> Module2 for DeviceTransformer<B, SB, CB> {
    open spec fn fwd2_pre(v: Self::V, src: TensorModel, tgt: TensorModel) -> bool {
        chain_pre::<DeviceEncoderBlock<B>>(v.0, src) && (match chain_fwd::<DeviceEncoderBlock<B>>(
            v.0,
            src,
        ) {
            Ok(mem) => chain2_pre::<DeviceDecoderBlock<SB, CB>>(v.1, tgt, mem),
            Err(_) => true,
        })
    }

    open spec fn fwd2_of(v: Self::V, src: TensorModel, tgt: TensorModel) -> Result<
        TensorModel,
        Error,
    > {
        match chain_fwd::<DeviceEncoderBlock<B>>(v.0, src) {
            Err(e) => Err(e),
            Ok(mem) => chain2_fwd::<DeviceDecoderBlock<SB, CB>>(v.1, tgt, mem),
        }
    }

    proof fn lemma_fwd2_wf(v: Self::V, src: TensorModel, tgt: TensorModel) {
        crate::vecs::lemma_chain_fwd_wf::<DeviceEncoderBlock<B>>(v.0, src);
        match chain_fwd::<DeviceEncoderBlock<B>>(v.0, src) {
            Ok(mem) => {
                crate::vecs::lemma_chain2_fwd_wf::<DeviceDecoderBlock<SB, CB>>(v.1, tgt, mem);
            },
            Err(_) => (),
        }
    }

    fn try_forward2(&self, src: Tensor, tgt: Tensor) -> (r: Result<Tensor, Error>) {
        let mem = match self.parts.0.try_forward(src) {
            Ok(m) => m,
            Err(e) => {
                return Err(e);
            },
        };
        proof {
            crate::vecs::lemma_chain_fwd_wf::<DeviceEncoderBlock<B>>(self@.0, src@);
            assert(crate::vecs::views_of(self.parts.1.0@).skip(0) =~= crate::vecs::views_of(
                self.parts.1.0@,
            ));
        }
        crate::vecs::fwd2_from(&self.parts.1.0, 0, tgt, &mem)
    }
}

impl<A: BuildOnDevice, SA: BuildOnDevice, CA: BuildOnDevice> BuildOnDevice for Transformer<
    A,
    SA,
    CA,
> {
    type Built = DeviceTransformer<A::Built, SA::Built, CA::Built>;

    open spec fn c_wf(&self) -> bool {
        self.parts.c_wf()
    }

    open spec fn can_alloc(&self) -> bool {
        self.parts.can_alloc()
    }

    open spec fn n_ids(&self) -> nat {
        self.parts.n_ids()
    }

    open spec fn built_model(&self, id0: u64) -> <Self::Built as View>::V {
        self.parts.built_model(id0)
    }

    proof fn lemma_build_deterministic(&self, a: u64, b: u64) {
        self.parts.lemma_build_deterministic(a, b);
    }

    fn try_build_on_device(&self, dev: &mut Device) -> (r: Result<Self::Built, Error>) {
        match self.parts.try_build_on_device(dev) {
            Ok(parts) => {
                let built = DeviceTransformer { parts };
                proof {
                    assert(built@ == built.parts@);
                    assert(built@ == self.built_model(old(dev).next_id));
                    assert(<Self::Built as BuiltModule>::v_wf(built@));
                    assert(final(dev).next_id == old(dev).next_id + self.n_ids());
                }
                Ok(built)
            },
            Err(e) => Err(e),
        }
    }
}

impl<B: ResetParams, SB: ResetParams, CB: ResetParams> ResetParams for DeviceTransformer<
    B,
    SB,
    CB,
> {
    open spec fn reset_rel(pre: Self::V, post: Self::V) -> bool {
        <(ModuleList<DeviceEncoderBlock<B>>, ModuleList<DeviceDecoderBlock<SB, CB>>)>::reset_rel(
            pre,
            post,
        )
    }

    fn try_reset_params(&mut self, dev: &mut Device) -> (r: Result<(), Error>) {
        self.parts.try_reset_params(dev)
    }
}

impl<B: UpdateParams, SB: UpdateParams, CB: UpdateParams> UpdateParams for DeviceTransformer<
    B,
    SB,
    CB,
> {
    fn try_update_params<O: Optimizer>(
        &mut self,
        opt: &mut O,
        grads: &Gradients,
        missing: &mut Vec<u64>,
    ) -> (r: Result<(), Error>) {
        let r = self.parts.try_update_params(opt, grads, missing);
        proof {
            assert(final(self)@ == Self::with_params(
                old(self)@,
                upd_fold::<O>(old(opt)@, Self::params_of(old(self)@), grads@, old(missing)@).1,
            ));
        }
        r
    }
}

impl<B: ZeroGrads, SB: ZeroGrads, CB: ZeroGrads> ZeroGrads for DeviceTransformer<B, SB, CB> {
    fn try_zero_grads(&self, grads: &mut Gradients) -> (r: Result<(), Error>) {
        self.parts.try_zero_grads(grads)
    }
}


impl crate::serialize::SaveSafeTensors for DeviceFeedForward {
    open spec fn recs_of(v: Self::V, loc: Seq<char>) -> Seq<crate::serialize::RecordModel> {
        <(DeviceLinear, (ReLU, DeviceLinear)) as crate::serialize::SaveSafeTensors>::recs_of(
            v,
            loc,
        )
    }

    open spec fn bytes_fit(v: Self::V) -> bool {
        <(DeviceLinear, (ReLU, DeviceLinear)) as crate::serialize::SaveSafeTensors>::bytes_fit(v)
    }

    fn write_safetensors(&self, loc: &str, out: &mut Vec<crate::serialize::Record>) {
        self.seq.write_safetensors(loc, out);
    }
}

impl crate::serialize::LoadSafeTensors for DeviceFeedForward {
    open spec fn load_model(
        v: Self::V,
        recs: Seq<crate::serialize::RecordModel>,
        loc: Seq<char>,
    ) -> (Self::V, Result<(), crate::error::LoadError>) {
        <(DeviceLinear, (ReLU, DeviceLinear)) as crate::serialize::LoadSafeTensors>::load_model(
            v,
            recs,
            loc,
        )
    }

    fn read_safetensors(&mut self, loc: &str, recs: &Vec<crate::serialize::Record>) -> (r: Result<
        (),
        crate::error::LoadError,
    >) {
        let r = self.seq.read_safetensors(loc, recs);
        proof {
            assert(final(self)@ == Self::load_model(
                old(self)@,
                crate::vecs::views_of(recs@),
                loc@,
            ).0);
        }
        r
    }
}

impl<B: crate::serialize::SaveSafeTensors> crate::serialize::SaveSafeTensors for DeviceEncoderBlock<
    B,
> {
    open spec fn recs_of(v: Self::V, loc: Seq<char>) -> Seq<crate::serialize::RecordModel> {
        <(
            ResidualAdd<B>,
            (DeviceLayerNorm1D, (ResidualAdd<DeviceFeedForward>, DeviceLayerNorm1D)),
        ) as crate::serialize::SaveSafeTensors>::recs_of(v, loc)
    }

    open spec fn bytes_fit(v: Self::V) -> bool {
        <(
            ResidualAdd<B>,
            (DeviceLayerNorm1D, (ResidualAdd<DeviceFeedForward>, DeviceLayerNorm1D)),
        ) as crate::serialize::SaveSafeTensors>::bytes_fit(v)
    }

    fn write_safetensors(&self, loc: &str, out: &mut Vec<crate::serialize::Record>) {
        self.seq.write_safetensors(loc, out);
    }
}

impl<B: crate::serialize::LoadSafeTensors> crate::serialize::LoadSafeTensors for DeviceEncoderBlock<
    B,
> {
    open spec fn load_model(
        v: Self::V,
        recs: Seq<crate::serialize::RecordModel>,
        loc: Seq<char>,
    ) -> (Self::V, Result<(), crate::error::LoadError>) {
        <(
            ResidualAdd<B>,
            (DeviceLayerNorm1D, (ResidualAdd<DeviceFeedForward>, DeviceLayerNorm1D)),
        ) as crate::serialize::LoadSafeTensors>::load_model(v, recs, loc)
    }

    fn read_safetensors(&mut self, loc: &str, recs: &Vec<crate::serialize::Record>) -> (r: Result<
        (),
        crate::error::LoadError,
    >) {
        let r = self.seq.read_safetensors(loc, recs);
        proof {
            assert(final(self)@ == Self::load_model(
                old(self)@,
                crate::vecs::views_of(recs@),
                loc@,
            ).0);
        }
        r
    }
}

impl<T: crate::serialize::SaveSafeTensors> crate::serialize::SaveSafeTensors for TargetOnly<T> {
    open spec fn recs_of(v: Self::V, loc: Seq<char>) -> Seq<crate::serialize::RecordModel> {
        T::recs_of(v.0, loc)
    }

    open spec fn bytes_fit(v: Self::V) -> bool {
        T::bytes_fit(v.0)
    }

    fn write_safetensors(&self, loc: &str, out: &mut Vec<crate::serialize::Record>) {
        self.0.write_safetensors(loc, out);
    }
}

impl<T: crate::serialize::LoadSafeTensors> crate::serialize::LoadSafeTensors for TargetOnly<T> {
    open spec fn load_model(
        v: Self::V,
        recs: Seq<crate::serialize::RecordModel>,
        loc: Seq<char>,
    ) -> (Self::V, Result<(), crate::error::LoadError>) {
        let (t2, r) = T::load_model(v.0, recs, loc);
        (TargetOnlyV(t2), r)
    }

    fn read_safetensors(&mut self, loc: &str, recs: &Vec<crate::serialize::Record>) -> (r: Result<
        (),
        crate::error::LoadError,
    >) {
        let r = self.0.read_safetensors(loc, recs);
        proof {
            assert(final(self)@ =~= Self::load_model(
                old(self)@,
                crate::vecs::views_of(recs@),
                loc@,
            ).0);
        }
        r
    }
}

impl<SB: crate::serialize::SaveSafeTensors, CB: crate::serialize::SaveSafeTensors>
    crate::serialize::SaveSafeTensors for DeviceDecoderBlock<SB, CB> {
    open spec fn recs_of(v: Self::V, loc: Seq<char>) -> Seq<crate::serialize::RecordModel> {
        <(
            ResidualAdd<SB>,
            (
                DeviceLayerNorm1D,
                (CB, (DeviceLayerNorm1D, (ResidualAdd<DeviceFeedForward>, DeviceLayerNorm1D))),
            ),
        ) as crate::serialize::SaveSafeTensors>::recs_of(v, loc)
    }

    open spec fn bytes_fit(v: Self::V) -> bool {
        <(
            ResidualAdd<SB>,
            (
                DeviceLayerNorm1D,
                (CB, (DeviceLayerNorm1D, (ResidualAdd<DeviceFeedForward>, DeviceLayerNorm1D))),
            ),
        ) as crate::serialize::SaveSafeTensors>::bytes_fit(v)
    }

    fn write_safetensors(&self, loc: &str, out: &mut Vec<crate::serialize::Record>) {
        self.parts.write_safetensors(loc, out);
    }
}

impl<SB: crate::serialize::LoadSafeTensors, CB: crate::serialize::LoadSafeTensors>
    crate::serialize::LoadSafeTensors for DeviceDecoderBlock<SB, CB> {
    open spec fn load_model(
        v: Self::V,
        recs: Seq<crate::serialize::RecordModel>,
        loc: Seq<char>,
    ) -> (Self::V, Result<(), crate::error::LoadError>) {
        <(
            ResidualAdd<SB>,
            (
                DeviceLayerNorm1D,
                (CB, (DeviceLayerNorm1D, (ResidualAdd<DeviceFeedForward>, DeviceLayerNorm1D))),
            ),
        ) as crate::serialize::LoadSafeTensors>::load_model(v, recs, loc)
    }

    fn read_safetensors(&mut self, loc: &str, recs: &Vec<crate::serialize::Record>) -> (r: Result<
        (),
        crate::error::LoadError,
    >) {
        let r = self.parts.read_safetensors(loc, recs);
        proof {
            assert(final(self)@ == Self::load_model(
                old(self)@,
                crate::vecs::views_of(recs@),
                loc@,
            ).0);
        }
        r
    }
}

impl<B: crate::serialize::SaveSafeTensors, SB: crate::serialize::SaveSafeTensors,
    CB: crate::serialize::SaveSafeTensors> crate::serialize::SaveSafeTensors for DeviceTransformer<
    B,
    SB,
    CB,
> {
    open spec fn recs_of(v: Self::V, loc: Seq<char>) -> Seq<crate::serialize::RecordModel> {
        <(
            ModuleList<DeviceEncoderBlock<B>>,
            ModuleList<DeviceDecoderBlock<SB, CB>>,
        ) as crate::serialize::SaveSafeTensors>::recs_of(v, loc)
    }

    open spec fn bytes_fit(v: Self::V) -> bool {
        <(
            ModuleList<DeviceEncoderBlock<B>>,
            ModuleList<DeviceDecoderBlock<SB, CB>>,
        ) as crate::serialize::SaveSafeTensors>::bytes_fit(v)
    }

    fn write_safetensors(&self, loc: &str, out: &mut Vec<crate::serialize::Record>) {
        self.parts.write_safetensors(loc, out);
    }
}

impl<B: crate::serialize::LoadSafeTensors, SB: crate::serialize::LoadSafeTensors,
    CB: crate::serialize::LoadSafeTensors> crate::serialize::LoadSafeTensors for DeviceTransformer<
    B,
    SB,
    CB,
> {
    open spec fn load_model(
        v: Self::V,
        recs: Seq<crate::serialize::RecordModel>,
        loc: Seq<char>,
    ) -> (Self::V, Result<(), crate::error::LoadError>) {
        <(
            ModuleList<DeviceEncoderBlock<B>>,
            ModuleList<DeviceDecoderBlock<SB, CB>>,
        ) as crate::serialize::LoadSafeTensors>::load_model(v, recs, loc)
    }

    fn read_safetensors(&mut self, loc: &str, recs: &Vec<crate::serialize::Record>) -> (r: Result<
        (),
        crate::error::LoadError,
    >) {
        let r = self.parts.read_safetensors(loc, recs);
        proof {
            assert(final(self)@ == Self::load_model(
                old(self)@,
                crate::vecs::views_of(recs@),
                loc@,
            ).0);
        }
        r
    }
}

} // verus!

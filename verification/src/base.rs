use vstd::prelude::*;

use crate::device::Device;
use crate::error::Error;
use crate::grads::{zero_of, Gradients};
use crate::ops::res_model;
use crate::tensor::{Tensor, TensorModel};

verus! {

/// The shapes of a sequence of tensors, in order.
pub open spec fn shapes_of(ts: Seq<TensorModel>) -> Seq<Seq<usize>> {
    ts.map_values(|t: TensorModel| t.shape)
}

/// Whether every tensor's identity lies in `[lo, hi)`.
pub open spec fn ids_in(ts: Seq<TensorModel>, lo: int, hi: int) -> bool {
    forall|i: int| 0 <= i < ts.len() ==> lo <= (#[trigger] ts[i]).id < hi
}

/// Whether the tensors' identities are strictly increasing (so in particular
/// pairwise distinct).
pub open spec fn ids_increasing(ts: Seq<TensorModel>) -> bool {
    forall|i: int, j: int| 0 <= i < j < ts.len() ==> (#[trigger] ts[i]).id < (#[trigger] ts[j]).id
}

/// Identity ranges and orderings compose across a concatenation whose parts
/// occupy adjacent ranges.
pub proof fn lemma_ids_concat(ta: Seq<TensorModel>, tb: Seq<TensorModel>, lo: int, mid: int, hi: int)
    requires
        lo <= mid <= hi,
        ids_in(ta, lo, mid),
        ids_in(tb, mid, hi),
        ids_increasing(ta),
        ids_increasing(tb),
    ensures
        ids_in(ta + tb, lo, hi),
        ids_increasing(ta + tb),
{
    assert forall|i: int| 0 <= i < (ta + tb).len() implies lo <= (#[trigger] (ta + tb)[i]).id
        < hi by {
        if i < ta.len() {
            assert((ta + tb)[i] == ta[i]);
        } else {
            assert((ta + tb)[i] == tb[i - ta.len()]);
        }
    }
    assert forall|i: int, j: int| 0 <= i < j < (ta + tb).len() implies (#[trigger] (ta + tb)[i]).id
        < (#[trigger] (ta + tb)[j]).id by {
        if j < ta.len() {
            assert((ta + tb)[i] == ta[i]);
            assert((ta + tb)[j] == ta[j]);
        } else if i >= ta.len() {
            assert((ta + tb)[i] == tb[i - ta.len()]);
            assert((ta + tb)[j] == tb[j - ta.len()]);
        } else {
            assert((ta + tb)[i] == ta[i]);
            assert((ta + tb)[j] == tb[j - ta.len()]);
        }
    }
}

/// Common model of a built (device) module tree: its well-formedness, the
/// tensors it owns, and its ordered trainable parameter leaves. Every
/// capability trait's traversal is specified over these.
pub trait BuiltModule: View + Sized {
    /// The tree's internal invariant.
    spec fn v_wf(v: Self::V) -> bool;

    /// Every tensor the tree owns (trainable or not), in tree order.
    spec fn tensors_of(v: Self::V) -> Seq<TensorModel>;

    /// The trainable parameter leaves, in tree order (a subsequence of
    /// `tensors_of`).
    spec fn params_of(v: Self::V) -> Seq<TensorModel>;

    /// The tree with its parameter leaves replaced in tree order. Defined
    /// only up to the tree's own parameter count.
    spec fn with_params(v: Self::V, ps: Seq<TensorModel>) -> Self::V;

    /// A well-formed tree owns well-formed tensors.
    proof fn lemma_tensors_wf(v: Self::V)
        requires
            Self::v_wf(v),
        ensures
            forall|i: int|
                0 <= i < Self::tensors_of(v).len() ==> (#[trigger] Self::tensors_of(v)[i]).wf(),
            forall|i: int|
                0 <= i < Self::params_of(v).len() ==> (#[trigger] Self::params_of(v)[i]).wf(),
    ;
}

/// A module: a value with a forward capability over the engine's tensors.
///
/// Every implementation carries a mathematical model of both forward forms:
/// `fwd_of` for the immutable (inference) call and `fwd_mut_of` for the
/// mutable (training) call, which may also change non-parameter state (only
/// batch normalization does). The executable methods return exactly what the
/// model says, error cases included, so chains of modules compose at the
/// specification level.
pub trait Module: BuiltModule {
    /// On which inputs the immutable (inference) forward may be invoked.
    spec fn fwd_pre(v: Self::V, x: TensorModel) -> bool;

    /// On which inputs the mutable (training) forward may be invoked.
    spec fn fwd_mut_pre(v: Self::V, x: TensorModel) -> bool;

    /// Value model of the immutable forward.
    spec fn fwd_of(v: Self::V, x: TensorModel) -> Result<TensorModel, Error>;

    /// Model of the mutable forward: the module state after the call and the
    /// returned value.
    spec fn fwd_mut_of(v: Self::V, x: TensorModel) -> (Self::V, Result<TensorModel, Error>);

    /// A well-formed module maps well-formed inputs to well-formed outputs,
    /// in both forward forms, and the training form keeps the module
    /// well-formed.
    proof fn lemma_fwd_wf(v: Self::V, x: TensorModel)
        requires
            Self::v_wf(v),
            x.wf(),
        ensures
            Self::fwd_of(v, x) matches Ok(y) ==> y.wf(),
            Self::fwd_mut_of(v, x).1 matches Ok(y) ==> y.wf(),
            Self::v_wf(Self::fwd_mut_of(v, x).0),
    ;

    /// Inference forward; no module state changes.
    fn try_forward(&self, x: Tensor) -> (r: Result<Tensor, Error>)
        requires
            Self::v_wf(self@),
            x@.wf(),
            Self::fwd_pre(self@, x@),
        ensures
            res_model(r) == Self::fwd_of(self@, x@),
    ;

    /// Training forward; may update non-parameter state (running statistics).
    fn try_forward_mut(&mut self, x: Tensor) -> (r: Result<Tensor, Error>)
        requires
            Self::v_wf(old(self)@),
            x@.wf(),
            Self::fwd_mut_pre(old(self)@, x@),
        ensures
            final(self)@ == Self::fwd_mut_of(old(self)@, x@).0,
            res_model(r) == Self::fwd_mut_of(old(self)@, x@).1,
    ;

    /// Unwrapping form of `try_forward`, for callers that have established
    /// success; such callers never panic.
    fn forward(&self, x: Tensor) -> (r: Tensor)
        requires
            Self::v_wf(self@),
            x@.wf(),
            Self::fwd_pre(self@, x@),
            Self::fwd_of(self@, x@) is Ok,
        ensures
            Ok::<TensorModel, Error>(r@) == Self::fwd_of(self@, x@),
    {
        let r = self.try_forward(x);
        r.unwrap()
    }

    /// Unwrapping form of `try_forward_mut`.
    fn forward_mut(&mut self, x: Tensor) -> (r: Tensor)
        requires
            Self::v_wf(old(self)@),
            x@.wf(),
            Self::fwd_mut_pre(old(self)@, x@),
            Self::fwd_mut_of(old(self)@, x@).1 is Ok,
        ensures
            final(self)@ == Self::fwd_mut_of(old(self)@, x@).0,
            Ok::<TensorModel, Error>(r@) == Self::fwd_mut_of(old(self)@, x@).1,
    {
        let r = self.try_forward_mut(x);
        r.unwrap()
    }
}

/// A module whose forward consumes two tensors (a target stream and a
/// memory), as cross-attention does; implementations are supplied by callers
/// and by the composites below that carry one.
pub trait Module2: BuiltModule {
    /// On which input pairs the forward may be invoked.
    spec fn fwd2_pre(v: Self::V, a: TensorModel, b: TensorModel) -> bool;

    /// Value model of the two-input forward.
    spec fn fwd2_of(v: Self::V, a: TensorModel, b: TensorModel) -> Result<TensorModel, Error>;

    /// A well-formed module maps well-formed input pairs to well-formed
    /// outputs.
    proof fn lemma_fwd2_wf(v: Self::V, a: TensorModel, b: TensorModel)
        requires
            Self::v_wf(v),
            a.wf(),
            b.wf(),
        ensures
            Self::fwd2_of(v, a, b) matches Ok(y) ==> y.wf(),
    ;

    /// Two-input forward; no module state changes.
    fn try_forward2(&self, a: Tensor, b: Tensor) -> (r: Result<Tensor, Error>)
        requires
            Self::v_wf(self@),
            a@.wf(),
            b@.wf(),
            Self::fwd2_pre(self@, a@, b@),
        ensures
            res_model(r) == Self::fwd2_of(self@, a@, b@),
    ;
}

/// A shape-only configuration that the build pass realizes into a tensor-
/// bearing tree on a device. One configuration maps to exactly one built
/// tree; the realization is deterministic given the first fresh tensor
/// identifier, which is how structural determinism of building is stated.
pub trait BuildOnDevice {
    type Built: BuiltModule;

    /// The configuration's validity (hyperparameter constraints).
    spec fn c_wf(&self) -> bool;

    /// Whether every tensor of the built tree has an allocatable size.
    spec fn can_alloc(&self) -> bool;

    /// How many tensor identifiers one build consumes.
    spec fn n_ids(&self) -> nat;

    /// Deterministic model of the built tree, given the first fresh
    /// identifier.
    spec fn built_model(&self, id0: u64) -> <Self::Built as View>::V;

    /// The built tree is well-formed; its tensor shapes do not depend on the
    /// identifier counter (building twice yields identical structure and
    /// shapes); and its tensors take exactly the identifiers handed out
    /// during the build, in order — so they are pairwise distinct, and a
    /// second build's are fresh.
    proof fn lemma_build_deterministic(&self, a: u64, b: u64)
        requires
            self.c_wf(),
            self.can_alloc(),
        ensures
            <Self::Built as BuiltModule>::v_wf(self.built_model(a)),
            shapes_of(<Self::Built as BuiltModule>::tensors_of(self.built_model(a)))
                == shapes_of(<Self::Built as BuiltModule>::tensors_of(self.built_model(b))),
            shapes_of(<Self::Built as BuiltModule>::params_of(self.built_model(a)))
                == shapes_of(<Self::Built as BuiltModule>::params_of(self.built_model(b))),
            a + self.n_ids() <= u64::MAX ==> {
                &&& ids_in(
                    <Self::Built as BuiltModule>::tensors_of(self.built_model(a)),
                    a as int,
                    a + self.n_ids(),
                )
                &&& ids_increasing(
                    <Self::Built as BuiltModule>::tensors_of(self.built_model(a)),
                )
                &&& ids_in(
                    <Self::Built as BuiltModule>::params_of(self.built_model(a)),
                    a as int,
                    a + self.n_ids(),
                )
                &&& ids_increasing(<Self::Built as BuiltModule>::params_of(self.built_model(a)))
            },
    ;

    /// Materializes the tree on the device: allocates every tensor field
    /// (zeros, or ones for the statistics that start at one), preserving the
    /// configuration's field structure. Fails exactly when an allocation size
    /// does not fit the machine or the device has too few identifiers left.
    fn try_build_on_device(&self, dev: &mut Device) -> (r: Result<Self::Built, Error>)
        requires
            self.c_wf(),
        ensures
            r matches Ok(m) ==> {
                &&& m@ == self.built_model(old(dev).next_id)
                &&& <Self::Built as BuiltModule>::v_wf(m@)
                &&& final(dev).next_id == old(dev).next_id + self.n_ids()
            },
            r is Ok <==> self.can_alloc() && old(dev).next_id + self.n_ids() <= u64::MAX,
            r matches Err(e) ==> e == Error::Alloc,
    ;

    /// Unwrapping form of `try_build_on_device`.
    fn build_on_device(&self, dev: &mut Device) -> (m: Self::Built)
        requires
            self.c_wf(),
            self.can_alloc(),
            old(dev).next_id + self.n_ids() <= u64::MAX,
        ensures
            m@ == self.built_model(old(dev).next_id),
            <Self::Built as BuiltModule>::v_wf(m@),
            final(dev).next_id == old(dev).next_id + self.n_ids(),
    {
        let r = self.try_build_on_device(dev);
        r.unwrap()
    }
}

/// Overwrites every parameter tensor and derived non-trainable state with its
/// initialization policy. Random draws come from the device, so the result is
/// related to, not determined by, the tree before the call: `reset_rel` pins
/// down the deterministic part (zeros, ones, preserved frames) and bounds the
/// random part.
pub trait ResetParams: BuiltModule {
    /// Relation between the tree before and after one reset pass.
    spec fn reset_rel(pre: Self::V, post: Self::V) -> bool;

    fn try_reset_params(&mut self, dev: &mut Device) -> (r: Result<(), Error>)
        requires
            Self::v_wf(old(self)@),
        ensures
            r is Ok,
            Self::v_wf(final(self)@),
            Self::reset_rel(old(self)@, final(self)@),
            final(dev).next_id == old(dev).next_id,
    ;

    /// Unwrapping form of `try_reset_params`.
    fn reset_params(&mut self, dev: &mut Device)
        requires
            Self::v_wf(old(self)@),
        ensures
            Self::v_wf(final(self)@),
            Self::reset_rel(old(self)@, final(self)@),
            final(dev).next_id == old(dev).next_id,
    {
        let r = self.try_reset_params(dev);
        r.unwrap()
    }
}

/// The per-tensor contract of an optimizer: a deterministic state transition
/// consuming one parameter and its gradient. The whole-tree update pass folds
/// it over the parameter leaves in tree order; a leaf without a gradient
/// entry is left bit-identical and its identity is recorded instead.
pub trait Optimizer: View + Sized {
    /// The optimizer's internal invariant.
    spec fn o_wf(v: Self::V) -> bool;

    /// One parameter step: the optimizer state after the step and the new
    /// parameter value.
    spec fn step(pre: Self::V, t: TensorModel, g: TensorModel) -> (Self::V, TensorModel);

    /// A step changes only parameter values: identity, shape and tape flag
    /// survive, and the optimizer stays well-formed.
    proof fn lemma_step_frame(pre: Self::V, t: TensorModel, g: TensorModel)
        requires
            Self::o_wf(pre),
            t.wf(),
            g.wf(),
            g.shape == t.shape,
        ensures
            Self::o_wf(Self::step(pre, t, g).0),
            t.same_frame(Self::step(pre, t, g).1),
            Self::step(pre, t, g).1.wf(),
    ;

    /// Looks up the parameter's gradient: if present, applies one step in
    /// place; if absent, appends the parameter's identity to `missing` and
    /// leaves the tensor untouched.
    fn update_tensor(&mut self, t: &mut Tensor, grads: &Gradients, missing: &mut Vec<u64>) -> (r:
        Result<(), Error>)
        requires
            Self::o_wf(old(self)@),
            old(t)@.wf(),
            grads.wf(),
            grads@.contains_key(old(t)@.id) ==> grads@[old(t)@.id].shape == old(t)@.shape,
        ensures
            r is Ok,
            Self::o_wf(final(self)@),
            grads@.contains_key(old(t)@.id) ==> {
                &&& (final(self)@, final(t)@) == Self::step(
                    old(self)@,
                    old(t)@,
                    grads@[old(t)@.id],
                )
                &&& final(missing)@ == old(missing)@
            },
            !grads@.contains_key(old(t)@.id) ==> {
                &&& final(t)@ == old(t)@
                &&& final(self)@ == old(self)@
                &&& final(missing)@ == old(missing)@.push(old(t)@.id)
            },
    ;
}

/// The result of folding an optimizer over parameter leaves in tree order:
/// the final optimizer state, the new parameter values (untouched leaves stay
/// bit-identical), and the identities of the leaves that had no gradient
/// entry, appended in visit order.
pub open spec fn upd_fold<O: Optimizer>(
    o: O::V,
    ps: Seq<TensorModel>,
    g: Map<u64, TensorModel>,
    miss: Seq<u64>,
) -> (O::V, Seq<TensorModel>, Seq<u64>)
    decreases ps.len(),
{
    if ps.len() == 0 {
        (o, Seq::empty(), miss)
    } else {
        let p = ps[0];
        if g.contains_key(p.id) {
            let (o1, t1) = O::step(o, p, g[p.id]);
            let (of, rest, mf) = upd_fold::<O>(o1, ps.drop_first(), g, miss);
            (of, seq![t1] + rest, mf)
        } else {
            let (of, rest, mf) = upd_fold::<O>(o, ps.drop_first(), g, miss.push(p.id));
            (of, seq![p] + rest, mf)
        }
    }
}

/// The update fold touches one parameter leaf per parameter.
pub proof fn lemma_upd_fold_len<O: Optimizer>(
    o: O::V,
    ps: Seq<TensorModel>,
    g: Map<u64, TensorModel>,
    miss: Seq<u64>,
)
    ensures
        upd_fold::<O>(o, ps, g, miss).1.len() == ps.len(),
    decreases ps.len(),
{
    if ps.len() > 0 {
        let p = ps[0];
        if g.contains_key(p.id) {
            let (o1, t1) = O::step(o, p, g[p.id]);
            lemma_upd_fold_len::<O>(o1, ps.drop_first(), g, miss);
        } else {
            lemma_upd_fold_len::<O>(o, ps.drop_first(), g, miss.push(p.id));
        }
    }
}

/// The update fold over a single parameter leaf: one optimizer step, or one
/// recorded missing identity.
pub proof fn lemma_upd_fold_one<O: Optimizer>(
    o: O::V,
    p: TensorModel,
    g: Map<u64, TensorModel>,
    miss: Seq<u64>,
)
    ensures
        g.contains_key(p.id) ==> upd_fold::<O>(o, seq![p], g, miss) == (
            O::step(o, p, g[p.id]).0,
            seq![O::step(o, p, g[p.id]).1],
            miss,
        ),
        !g.contains_key(p.id) ==> upd_fold::<O>(o, seq![p], g, miss) == (
            o,
            seq![p],
            miss.push(p.id),
        ),
{
    reveal_with_fuel(upd_fold, 2);
    assert(seq![p].drop_first() =~= Seq::<TensorModel>::empty());
    assert(seq![p][0] == p);
    if g.contains_key(p.id) {
        let (o1, t1) = O::step(o, p, g[p.id]);
        assert(seq![t1] + Seq::<TensorModel>::empty() =~= seq![t1]);
    } else {
        assert(seq![p] + Seq::<TensorModel>::empty() =~= seq![p]);
    }
}

/// The zero-gradient fold over a single parameter leaf.
pub proof fn lemma_zg_fold_one(p: TensorModel, g: Map<u64, TensorModel>)
    ensures
        zg_fold(seq![p], g) == g.insert(p.id, zero_of(p)),
{
    reveal_with_fuel(zg_fold, 2);
    assert(seq![p].drop_first() =~= Seq::<TensorModel>::empty());
    assert(seq![p][0] == p);
}

/// Updating a concatenation of parameter lists is updating the first list,
/// then the second from the optimizer state and missing list the first left.
pub proof fn lemma_upd_fold_concat<O: Optimizer>(
    o: O::V,
    a: Seq<TensorModel>,
    b: Seq<TensorModel>,
    g: Map<u64, TensorModel>,
    miss: Seq<u64>,
)
    ensures
        ({
            let (o1, pa, m1) = upd_fold::<O>(o, a, g, miss);
            let (o2, pb, m2) = upd_fold::<O>(o1, b, g, m1);
            upd_fold::<O>(o, a + b, g, miss) == (o2, pa + pb, m2)
        }),
    decreases a.len(),
{
    let (o1, pa, m1) = upd_fold::<O>(o, a, g, miss);
    let (o2, pb, m2) = upd_fold::<O>(o1, b, g, m1);
    if a.len() == 0 {
        assert(a + b =~= b);
        assert(pa =~= Seq::<TensorModel>::empty());
        assert(pa + pb =~= pb);
    } else {
        let p = a[0];
        assert((a + b)[0] == p);
        assert((a + b).drop_first() =~= a.drop_first() + b);
        if g.contains_key(p.id) {
            let (ox, t1) = O::step(o, p, g[p.id]);
            lemma_upd_fold_concat::<O>(ox, a.drop_first(), b, g, miss);
            let (oy, pr, mr) = upd_fold::<O>(ox, a.drop_first() + b, g, miss);
            assert(seq![t1] + pr =~= seq![t1] + (upd_fold::<O>(ox, a.drop_first(), g, miss).1
                + pb));
            assert(seq![t1] + (upd_fold::<O>(ox, a.drop_first(), g, miss).1 + pb) =~= (seq![t1]
                + upd_fold::<O>(ox, a.drop_first(), g, miss).1) + pb);
        } else {
            lemma_upd_fold_concat::<O>(o, a.drop_first(), b, g, miss.push(p.id));
            let (oy, pr, mr) = upd_fold::<O>(o, a.drop_first() + b, g, miss.push(p.id));
            assert(seq![p] + pr =~= seq![p] + (upd_fold::<O>(o, a.drop_first(), g, miss.push(
                p.id,
            )).1 + pb));
            assert(seq![p] + (upd_fold::<O>(o, a.drop_first(), g, miss.push(p.id)).1 + pb) =~= (
            seq![p] + upd_fold::<O>(o, a.drop_first(), g, miss.push(p.id)).1) + pb);
        }
    }
}

/// Zeroing the gradients of a concatenation of parameter lists is zeroing the
/// first list's, then the second list's.
pub proof fn lemma_zg_fold_concat(
    a: Seq<TensorModel>,
    b: Seq<TensorModel>,
    g: Map<u64, TensorModel>,
)
    ensures
        zg_fold(a + b, g) == zg_fold(b, zg_fold(a, g)),
    decreases a.len(),
{
    if a.len() == 0 {
        assert(a + b =~= b);
    } else {
        assert((a + b)[0] == a[0]);
        assert((a + b).drop_first() =~= a.drop_first() + b);
        lemma_zg_fold_concat(a.drop_first(), b, g.insert(a[0].id, zero_of(a[0])));
    }
}

/// Whether every gradient entry for a parameter in `ps` has that parameter's
/// shape (what the optimizer's per-tensor step needs).
pub open spec fn grads_match(ps: Seq<TensorModel>, g: Map<u64, TensorModel>) -> bool {
    forall|i: int|
        0 <= i < ps.len() && g.contains_key((#[trigger] ps[i]).id) ==> g[ps[i].id].shape
            == ps[i].shape
}

/// Matching gradients for a concatenation match each part.
pub proof fn lemma_grads_match_split(
    a: Seq<TensorModel>,
    b: Seq<TensorModel>,
    g: Map<u64, TensorModel>,
)
    requires
        grads_match(a + b, g),
    ensures
        grads_match(a, g),
        grads_match(b, g),
{
    assert forall|i: int| 0 <= i < a.len() && g.contains_key((#[trigger] a[i]).id) implies g[a[i].id].shape
        == a[i].shape by {
        assert((a + b)[i] == a[i]);
    }
    assert forall|i: int| 0 <= i < b.len() && g.contains_key((#[trigger] b[i]).id) implies g[b[i].id].shape
        == b[i].shape by {
        assert((a + b)[a.len() + i] == b[i]);
    }
}

/// Applies one optimizer step to every parameter leaf that has a gradient
/// entry, recursing into nested modules in tree order and never visiting a
/// leaf twice; leaves without an entry are recorded in `missing` and left
/// untouched.
pub trait UpdateParams: BuiltModule {
    fn try_update_params<O: Optimizer>(
        &mut self,
        opt: &mut O,
        grads: &Gradients,
        missing: &mut Vec<u64>,
    ) -> (r: Result<(), Error>)
        requires
            Self::v_wf(old(self)@),
            O::o_wf(old(opt)@),
            grads.wf(),
            grads_match(Self::params_of(old(self)@), grads@),
        ensures
            r is Ok,
            Self::v_wf(final(self)@),
            O::o_wf(final(opt)@),
            ({
                let (of, ps2, m2) = upd_fold::<O>(
                    old(opt)@,
                    Self::params_of(old(self)@),
                    grads@,
                    old(missing)@,
                );
                &&& final(self)@ == Self::with_params(old(self)@, ps2)
                &&& final(opt)@ == of
                &&& final(missing)@ == m2
            }),
    ;

    /// Unwrapping form of `try_update_params`.
    fn update_params<O: Optimizer>(
        &mut self,
        opt: &mut O,
        grads: &Gradients,
        missing: &mut Vec<u64>,
    )
        requires
            Self::v_wf(old(self)@),
            O::o_wf(old(opt)@),
            grads.wf(),
            grads_match(Self::params_of(old(self)@), grads@),
        ensures
            Self::v_wf(final(self)@),
            O::o_wf(final(opt)@),
            ({
                let (of, ps2, m2) = upd_fold::<O>(
                    old(opt)@,
                    Self::params_of(old(self)@),
                    grads@,
                    old(missing)@,
                );
                &&& final(self)@ == Self::with_params(old(self)@, ps2)
                &&& final(opt)@ == of
                &&& final(missing)@ == m2
            }),
    {
        let r = self.try_update_params(opt, grads, missing);
        r.unwrap()
    }
}

/// The gradient table after a zero-gradient pass: every parameter leaf maps
/// to a freshly zero-filled gradient of its shape, in tree order.
pub open spec fn zg_fold(ps: Seq<TensorModel>, g: Map<u64, TensorModel>) -> Map<u64, TensorModel>
    decreases ps.len(),
{
    if ps.len() == 0 {
        g
    } else {
        zg_fold(ps.drop_first(), g.insert(ps[0].id, zero_of(ps[0])))
    }
}

/// Ensures every parameter leaf has an allocated, zero-filled gradient entry,
/// recursing structurally.
pub trait ZeroGrads: BuiltModule {
    fn try_zero_grads(&self, grads: &mut Gradients) -> (r: Result<(), Error>)
        requires
            Self::v_wf(self@),
            old(grads).wf(),
        ensures
            r is Ok,
            final(grads).wf(),
            final(grads)@ == zg_fold(Self::params_of(self@), old(grads)@),
    ;

    /// Unwrapping form of `try_zero_grads`.
    fn zero_grads(&self, grads: &mut Gradients)
        requires
            Self::v_wf(self@),
            old(grads).wf(),
        ensures
            final(grads).wf(),
            final(grads)@ == zg_fold(Self::params_of(self@), old(grads)@),
    {
        let r = self.try_zero_grads(grads);
        r.unwrap()
    }

    /// A fresh gradient table with a zero-filled entry for every parameter
    /// leaf of this tree.
    fn try_alloc_grads(&self) -> (r: Result<Gradients, Error>)
        requires
            Self::v_wf(self@),
        ensures
            r matches Ok(g) ==> g.wf() && g@ == zg_fold(Self::params_of(self@), Map::empty()),
            r is Ok,
    {
        let mut grads = Gradients::new();
        let r = self.try_zero_grads(&mut grads);
        match r {
            Ok(()) => Ok(grads),
            Err(e) => Err(e),
        }
    }

    /// Unwrapping form of `try_alloc_grads`.
    fn alloc_grads(&self) -> (g: Gradients)
        requires
            Self::v_wf(self@),
        ensures
            g.wf(),
            g@ == zg_fold(Self::params_of(self@), Map::empty()),
    {
        let r = self.try_alloc_grads();
        r.unwrap()
    }
}

/// Whole-tree optimizer update: walks the tree once, applies the optimizer to
/// every parameter that has a gradient, and aggregates every parameter that
/// has none into a single `UnusedTensors` error naming all of them, so a
/// structural mismatch between the forward graph and the tree is reported in
/// full.
pub fn update<M: UpdateParams, O: Optimizer>(opt: &mut O, module: &mut M, grads: &Gradients) -> (r:
    Result<(), crate::error::OptimizerUpdateError>)
    requires
        M::v_wf(old(module)@),
        O::o_wf(old(opt)@),
        grads.wf(),
        grads_match(M::params_of(old(module)@), grads@),
    ensures
        M::v_wf(final(module)@),
        O::o_wf(final(opt)@),
        ({
            let (of, ps2, m2) = upd_fold::<O>(
                old(opt)@,
                M::params_of(old(module)@),
                grads@,
                Seq::empty(),
            );
            &&& final(module)@ == M::with_params(old(module)@, ps2)
            &&& final(opt)@ == of
            &&& (m2.len() == 0 ==> r is Ok)
            &&& (m2.len() > 0 ==> (r matches Err(
                crate::error::OptimizerUpdateError::UnusedTensors(v),
            ) && v@ == m2))
        }),
{
    let mut missing: Vec<u64> = Vec::new();
    let res = module.try_update_params(opt, grads, &mut missing);
    proof {
        assert(res is Ok);
    }
    if missing.len() == 0 {
        proof {
            assert(missing@ =~= Seq::<u64>::empty());
        }
        Ok(())
    } else {
        Err(crate::error::OptimizerUpdateError::UnusedTensors(missing))
    }
}


/// Builds a configuration on the device and immediately initializes the
/// parameters: the convenience entry point that takes a shape-only
/// description to a ready module tree in one call.
pub fn build_module_ext<M: BuildOnDevice>(dev: &mut Device, cfg: &M) -> (r: Result<
    M::Built,
    Error,
>) where M::Built: ResetParams
    requires
        cfg.c_wf(),
    ensures
        r matches Ok(m) ==> {
            &&& <M::Built as BuiltModule>::v_wf(m@)
            &&& <M::Built as ResetParams>::reset_rel(cfg.built_model(old(dev).next_id), m@)
            &&& final(dev).next_id == old(dev).next_id + cfg.n_ids()
        },
        r is Ok <==> cfg.can_alloc() && old(dev).next_id + cfg.n_ids() <= u64::MAX,
        r matches Err(e) ==> e == Error::Alloc,
{
    let mut m = match cfg.try_build_on_device(dev) {
        Ok(m) => m,
        Err(e) => {
            return Err(e);
        },
    };
    let rr = m.try_reset_params(dev);
    proof {
        assert(rr is Ok);
    }
    Ok(m)
}

} // verus!

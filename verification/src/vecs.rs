use vstd::prelude::*;

use crate::base::{upd_fold, zg_fold, BuildOnDevice, BuiltModule, Module, Module2, Optimizer,
    ResetParams, UpdateParams, ZeroGrads};
use crate::device::Device;
use crate::error::Error;
use crate::grads::Gradients;
use crate::ops::res_model;
use crate::tensor::{Tensor, TensorModel};

verus! {

/// The views of a list's elements, in order.
pub open spec fn views_of<T: View>(v: Seq<T>) -> Seq<T::V> {
    Seq::new(v.len(), |i: int| v[i]@)
}

/// A homogeneous list of modules, chained left to right: module `k`'s output
/// feeds module `k + 1`; the empty list is the identity. Every capability
/// traversal visits the elements in order.
#[derive(Debug)]
pub struct ModuleList<T>(pub Vec<T>);

impl<T: View> View for ModuleList<T> {
    type V = Seq<T::V>;

    open spec fn view(&self) -> Seq<T::V> {
        views_of(self.0@)
    }
}

/// Whether every element of the list is well-formed.
pub open spec fn list_wf<T: BuiltModule>(v: Seq<T::V>) -> bool {
    forall|i: int| 0 <= i < v.len() ==> T::v_wf(#[trigger] v[i])
}

/// All tensors owned by the list's elements, in order.
pub open spec fn list_tensors<T: BuiltModule>(v: Seq<T::V>) -> Seq<TensorModel>
    decreases v.len(),
{
    if v.len() == 0 {
        Seq::empty()
    } else {
        T::tensors_of(v[0]) + list_tensors::<T>(v.drop_first())
    }
}

/// All parameter leaves of the list's elements, in order.
pub open spec fn list_params<T: BuiltModule>(v: Seq<T::V>) -> Seq<TensorModel>
    decreases v.len(),
{
    if v.len() == 0 {
        Seq::empty()
    } else {
        T::params_of(v[0]) + list_params::<T>(v.drop_first())
    }
}

/// The list with its parameter leaves replaced in order, each element taking
/// its own share.
pub open spec fn list_with_params<T: BuiltModule>(v: Seq<T::V>, ps: Seq<TensorModel>) -> Seq<T::V>
    decreases v.len(),
{
    if v.len() == 0 {
        v
    } else {
        let n0 = T::params_of(v[0]).len() as int;
        seq![T::with_params(v[0], ps.take(n0))] + list_with_params::<T>(v.drop_first(), ps.skip(n0))
    }
}

/// The left-to-right fold of the immutable forward: the chain fails fast at
/// the first erroring element; the empty chain is the identity.
pub open spec fn chain_fwd<T: Module>(v: Seq<T::V>, x: TensorModel) -> Result<TensorModel, Error>
    decreases v.len(),
{
    if v.len() == 0 {
        Ok(x)
    } else {
        match T::fwd_of(v[0], x) {
            Ok(y) => chain_fwd::<T>(v.drop_first(), y),
            Err(e) => Err(e),
        }
    }
}

/// Whether every element's forward precondition holds along the chain.
pub open spec fn chain_pre<T: Module>(v: Seq<T::V>, x: TensorModel) -> bool
    decreases v.len(),
{
    if v.len() == 0 {
        true
    } else {
        T::fwd_pre(v[0], x) && match T::fwd_of(v[0], x) {
            Ok(y) => chain_pre::<T>(v.drop_first(), y),
            Err(_) => true,
        }
    }
}

/// The left-to-right fold of the mutable (training) forward: element states
/// thread through; elements after the first error are left unchanged.
pub open spec fn chain_fwd_mut<T: Module>(v: Seq<T::V>, x: TensorModel) -> (
    Seq<T::V>,
    Result<TensorModel, Error>,
)
    decreases v.len(),
{
    if v.len() == 0 {
        (v, Ok(x))
    } else {
        let (m0, r0) = T::fwd_mut_of(v[0], x);
        match r0 {
            Ok(y) => {
                let (rest, r) = chain_fwd_mut::<T>(v.drop_first(), y);
                (seq![m0] + rest, r)
            },
            Err(e) => (seq![m0] + v.drop_first(), Err(e)),
        }
    }
}

/// Whether every element's mutable-forward precondition holds along the chain.
pub open spec fn chain_mut_pre<T: Module>(v: Seq<T::V>, x: TensorModel) -> bool
    decreases v.len(),
{
    if v.len() == 0 {
        true
    } else {
        T::fwd_mut_pre(v[0], x) && match T::fwd_mut_of(v[0], x).1 {
            Ok(y) => chain_mut_pre::<T>(v.drop_first(), y),
            Err(_) => true,
        }
    }
}

/// Forward of the suffix starting at `i`, folding left to right.
fn fwd_from<T: Module>(v: &Vec<T>, i: usize, x: Tensor) -> (r: Result<Tensor, Error>)
    requires
        i <= v@.len(),
        list_wf::<T>(views_of(v@).skip(i as int)),
        x@.wf(),
        chain_pre::<T>(views_of(v@).skip(i as int), x@),
    ensures
        res_model(r) == chain_fwd::<T>(views_of(v@).skip(i as int), x@),
    decreases v@.len() - i,
{
    if i == v.len() {
        proof {
            assert(views_of(v@).skip(i as int) =~= Seq::<T::V>::empty());
        }
        Ok(x)
    } else {
        let ghost vs = views_of(v@).skip(i as int);
        proof {
            assert(vs[0] == v@[i as int]@);
            assert(vs.drop_first() =~= views_of(v@).skip(i + 1));
        }
        let y = match v[i].try_forward(x) {
            Ok(y) => y,
            Err(e) => {
                return Err(e);
            },
        };
        proof {
            T::lemma_fwd_wf(v@[i as int]@, x@);
        }
        fwd_from(v, i + 1, y)
    }
}

/// Mutable forward of the suffix starting at `i`.
fn fwd_mut_from<T: Module>(v: &mut Vec<T>, i: usize, x: Tensor) -> (r: Result<Tensor, Error>)
    requires
        i <= old(v)@.len(),
        list_wf::<T>(views_of(old(v)@).skip(i as int)),
        x@.wf(),
        chain_mut_pre::<T>(views_of(old(v)@).skip(i as int), x@),
    ensures
        final(v)@.len() == old(v)@.len(),
        views_of(final(v)@).take(i as int) == views_of(old(v)@).take(i as int),
        ({
            let (ms, rr) = chain_fwd_mut::<T>(views_of(old(v)@).skip(i as int), x@);
            &&& views_of(final(v)@).skip(i as int) == ms
            &&& res_model(r) == rr
        }),
    decreases old(v)@.len() - i,
{
    if i == v.len() {
        proof {
            assert(views_of(v@).skip(i as int) =~= Seq::<T::V>::empty());
            assert(views_of(final(v)@).take(i as int) =~= views_of(old(v)@).take(i as int));
        }
        Ok(x)
    } else {
        let ghost vs = views_of(old(v)@).skip(i as int);
        proof {
            assert(vs[0] == old(v)@[i as int]@);
            assert(vs.drop_first() =~= views_of(old(v)@).skip(i + 1));
        }
        let mut m = v.remove(i);
        let r0 = m.try_forward_mut(x);
        v.insert(i, m);
        proof {
            assert(views_of(v@).skip(i + 1) =~= views_of(old(v)@).skip(i + 1));
            assert(views_of(v@).take(i + 1) =~= views_of(old(v)@).take(i as int).push(
                m@,
            ));
        }
        let y = match r0 {
            Ok(y) => y,
            Err(e) => {
                proof {
                    assert(views_of(v@).skip(i as int) =~= seq![
                        T::fwd_mut_of(vs[0], x@).0,
                    ] + vs.drop_first());
                    assert(views_of(v@).take(i as int) =~= views_of(old(v)@).take(i as int));
                }
                return Err(e);
            },
        };
        proof {
            T::lemma_fwd_wf(vs[0], x@);
        }
        let rr = fwd_mut_from(v, i + 1, y);
        proof {
            let (rest, rz) = chain_fwd_mut::<T>(vs.drop_first(), T::fwd_mut_of(vs[0], x@).1->Ok_0);
            assert(views_of(final(v)@).skip(i as int) =~= seq![T::fwd_mut_of(vs[0], x@).0] + rest)
                by {
                assert(views_of(final(v)@).skip(i as int)[0] == views_of(final(v)@)[i as int]);
                assert(views_of(final(v)@).take(i + 1) == views_of(v@).take(i + 1));
                assert(views_of(final(v)@)[i as int] == views_of(v@).take(i + 1)[i as int]);
                assert(views_of(final(v)@).skip(i as int).drop_first() =~= views_of(
                    final(v)@,
                ).skip(i + 1));
            }
            assert(views_of(final(v)@).take(i as int) =~= views_of(old(v)@).take(i as int)) by {
                assert(forall|j: int|
                    0 <= j < i ==> views_of(final(v)@).take(i as int)[j] == views_of(
                        final(v)@,
                    ).take(i + 1)[j]);
            }
        }
        rr
    }
}

impl<T: BuiltModule> BuiltModule for ModuleList<T> {
    open spec fn v_wf(v: Seq<T::V>) -> bool {
        list_wf::<T>(v)
    }

    open spec fn tensors_of(v: Seq<T::V>) -> Seq<TensorModel> {
        list_tensors::<T>(v)
    }

    open spec fn params_of(v: Seq<T::V>) -> Seq<TensorModel> {
        list_params::<T>(v)
    }

    open spec fn with_params(v: Seq<T::V>, ps: Seq<TensorModel>) -> Seq<T::V> {
        list_with_params::<T>(v, ps)
    }

    proof fn lemma_tensors_wf(v: Seq<T::V>) {
        lemma_list_tensors_wf::<T>(v);
    }
}

/// Element well-formedness lifts to the list's tensor and parameter lists.
pub proof fn lemma_list_tensors_wf<T: BuiltModule>(v: Seq<T::V>)
    requires
        list_wf::<T>(v),
    ensures
        forall|i: int|
            0 <= i < list_tensors::<T>(v).len() ==> (#[trigger] list_tensors::<T>(v)[i]).wf(),
        forall|i: int|
            0 <= i < list_params::<T>(v).len() ==> (#[trigger] list_params::<T>(v)[i]).wf(),
    decreases v.len(),
{
    if v.len() > 0 {
        T::lemma_tensors_wf(v[0]);
        assert(list_wf::<T>(v.drop_first())) by {
            assert(forall|i: int|
                0 <= i < v.drop_first().len() ==> v.drop_first()[i] == v[i + 1]);
        }
        lemma_list_tensors_wf::<T>(v.drop_first());
        crate::linear::lemma_concat_all_wf(
            T::tensors_of(v[0]),
            list_tensors::<T>(v.drop_first()),
        );
        crate::linear::lemma_concat_all_wf(T::params_of(v[0]), list_params::<T>(v.drop_first()));
    }
}

impl<T: Module> Module for ModuleList<T> {
    open spec fn fwd_pre(v: Seq<T::V>, x: TensorModel) -> bool {
        chain_pre::<T>(v, x)
    }

    open spec fn fwd_mut_pre(v: Seq<T::V>, x: TensorModel) -> bool {
        chain_mut_pre::<T>(v, x)
    }

    open spec fn fwd_of(v: Seq<T::V>, x: TensorModel) -> Result<TensorModel, Error> {
        chain_fwd::<T>(v, x)
    }

    open spec fn fwd_mut_of(v: Seq<T::V>, x: TensorModel) -> (
        Seq<T::V>,
        Result<TensorModel, Error>,
    ) {
        chain_fwd_mut::<T>(v, x)
    }

    proof fn lemma_fwd_wf(v: Seq<T::V>, x: TensorModel) {
        lemma_chain_fwd_wf::<T>(v, x);
    }

    fn try_forward(&self, x: Tensor) -> (r: Result<Tensor, Error>) {
        proof {
            assert(views_of(self.0@).skip(0) =~= views_of(self.0@));
        }
        fwd_from(&self.0, 0, x)
    }

    fn try_forward_mut(&mut self, x: Tensor) -> (r: Result<Tensor, Error>) {
        proof {
            assert(views_of(old(self).0@).skip(0) =~= views_of(old(self).0@));
        }
        let r = fwd_mut_from(&mut self.0, 0, x);
        proof {
            assert(views_of(final(self).0@).skip(0) =~= views_of(final(self).0@));
        }
        r
    }
}

/// The left-to-right fold of a two-input module list: every element sees the
/// running stream and the same memory, failing fast.
pub open spec fn chain2_fwd<T: Module2>(v: Seq<T::V>, x: TensorModel, mem: TensorModel) -> Result<
    TensorModel,
    Error,
>
    decreases v.len(),
{
    if v.len() == 0 {
        Ok(x)
    } else {
        match T::fwd2_of(v[0], x, mem) {
            Ok(y) => chain2_fwd::<T>(v.drop_first(), y, mem),
            Err(e) => Err(e),
        }
    }
}

/// Whether every element's two-input precondition holds along the fold.
pub open spec fn chain2_pre<T: Module2>(v: Seq<T::V>, x: TensorModel, mem: TensorModel) -> bool
    decreases v.len(),
{
    if v.len() == 0 {
        true
    } else {
        T::fwd2_pre(v[0], x, mem) && match T::fwd2_of(v[0], x, mem) {
            Ok(y) => chain2_pre::<T>(v.drop_first(), y, mem),
            Err(_) => true,
        }
    }
}

/// A well-formed two-input fold maps well-formed inputs to well-formed
/// outputs.
pub proof fn lemma_chain2_fwd_wf<T: Module2>(v: Seq<T::V>, x: TensorModel, mem: TensorModel)
    requires
        list_wf::<T>(v),
        x.wf(),
        mem.wf(),
    ensures
        chain2_fwd::<T>(v, x, mem) matches Ok(y) ==> y.wf(),
    decreases v.len(),
{
    if v.len() > 0 {
        T::lemma_fwd2_wf(v[0], x, mem);
        assert(list_wf::<T>(v.drop_first())) by {
            assert(forall|i: int|
                0 <= i < v.drop_first().len() ==> v.drop_first()[i] == v[i + 1]);
        }
        match T::fwd2_of(v[0], x, mem) {
            Ok(y) => {
                lemma_chain2_fwd_wf::<T>(v.drop_first(), y, mem);
            },
            Err(_) => (),
        }
    }
}

/// Two-input forward of the suffix starting at `i`, with a shared memory.
pub fn fwd2_from<T: Module2>(v: &Vec<T>, i: usize, x: Tensor, mem: &Tensor) -> (r: Result<
    Tensor,
    Error,
>)
    requires
        i <= v@.len(),
        list_wf::<T>(views_of(v@).skip(i as int)),
        x@.wf(),
        mem@.wf(),
        chain2_pre::<T>(views_of(v@).skip(i as int), x@, mem@),
    ensures
        res_model(r) == chain2_fwd::<T>(views_of(v@).skip(i as int), x@, mem@),
    decreases v@.len() - i,
{
    if i == v.len() {
        proof {
            assert(views_of(v@).skip(i as int) =~= Seq::<T::V>::empty());
        }
        Ok(x)
    } else {
        let ghost vs = views_of(v@).skip(i as int);
        proof {
            assert(vs[0] == v@[i as int]@);
            assert(vs.drop_first() =~= views_of(v@).skip(i + 1));
        }
        let y = match v[i].try_forward2(x, mem.clone()) {
            Ok(y) => y,
            Err(e) => {
                return Err(e);
            },
        };
        proof {
            T::lemma_fwd2_wf(v@[i as int]@, x@, mem@);
        }
        fwd2_from(v, i + 1, y, mem)
    }
}

/// Whether every configuration in the list is valid.
pub open spec fn list_c_wf<C: BuildOnDevice>(cs: Seq<C>) -> bool {
    forall|i: int| 0 <= i < cs.len() ==> (#[trigger] cs[i]).c_wf()
}

/// Whether every configuration's tensors are allocatable.
pub open spec fn list_can_alloc<C: BuildOnDevice>(cs: Seq<C>) -> bool {
    forall|i: int| 0 <= i < cs.len() ==> (#[trigger] cs[i]).can_alloc()
}

/// Identifiers consumed by building the whole list.
pub open spec fn list_n_ids<C: BuildOnDevice>(cs: Seq<C>) -> nat
    decreases cs.len(),
{
    if cs.len() == 0 {
        0
    } else {
        cs[0].n_ids() + list_n_ids::<C>(cs.drop_first())
    }
}

/// Deterministic model of the built list: element `k` is built from the
/// identifier counter the elements before it left.
pub open spec fn list_built<C: BuildOnDevice>(cs: Seq<C>, id0: u64) -> Seq<
    <C::Built as View>::V,
>
    decreases cs.len(),
{
    if cs.len() == 0 {
        Seq::empty()
    } else {
        seq![cs[0].built_model(id0)] + list_built::<C>(
            cs.drop_first(),
            (id0 + cs[0].n_ids()) as u64,
        )
    }
}

/// Builds the suffix of a configuration list starting at `i`.
fn build_from<C: BuildOnDevice>(cfgs: &Vec<C>, i: usize, dev: &mut Device) -> (r: Result<
    Vec<C::Built>,
    Error,
>)
    requires
        i <= cfgs@.len(),
        list_c_wf::<C>(cfgs@.skip(i as int)),
    ensures
        r matches Ok(m) ==> {
            &&& views_of(m@) == list_built::<C>(cfgs@.skip(i as int), old(dev).next_id)
            &&& list_wf::<C::Built>(views_of(m@))
            &&& final(dev).next_id == old(dev).next_id + list_n_ids::<C>(cfgs@.skip(i as int))
        },
        r is Ok <==> list_can_alloc::<C>(cfgs@.skip(i as int)) && old(dev).next_id
            + list_n_ids::<C>(cfgs@.skip(i as int)) <= u64::MAX,
        r matches Err(e) ==> e == Error::Alloc,
    decreases cfgs@.len() - i,
{
    let ghost cs = cfgs@.skip(i as int);
    if i == cfgs.len() {
        proof {
            assert(cs =~= Seq::<C>::empty());
        }
        let out: Vec<C::Built> = Vec::new();
        proof {
            assert(views_of(out@) =~= list_built::<C>(cs, old(dev).next_id));
        }
        Ok(out)
    } else {
        proof {
            assert(cs[0] == cfgs@[i as int]);
            assert(cs.drop_first() =~= cfgs@.skip(i + 1));
        }
        let head = match cfgs[i].try_build_on_device(dev) {
            Ok(h) => h,
            Err(e) => {
                proof {
                    if list_can_alloc::<C>(cs) && old(dev).next_id + list_n_ids::<C>(cs)
                        <= u64::MAX {
                        assert(cs[0].can_alloc());
                    }
                }
                return Err(e);
            },
        };
        let ghost mid = dev.next_id;
        proof {
            assert(forall|j: int|
                0 <= j < cs.drop_first().len() ==> cs.drop_first()[j] == cs[j + 1]);
        }
        let mut rest = match build_from(cfgs, i + 1, dev) {
            Ok(rest) => rest,
            Err(e) => {
                return Err(e);
            },
        };
        let ghost rest_views = views_of(rest@);
        rest.insert(0, head);
        proof {
            assert(views_of(rest@) =~= seq![head@] + rest_views);
            assert(mid == (old(dev).next_id + cs[0].n_ids()) as u64);
            assert(views_of(rest@) =~= list_built::<C>(cs, old(dev).next_id));
            assert forall|j: int| 0 <= j < views_of(rest@).len() implies <C::Built as BuiltModule>::v_wf(
                #[trigger] views_of(rest@)[j],
            ) by {
                if j == 0 {
                    assert(views_of(rest@)[0] == head@);
                } else {
                    assert(views_of(rest@)[j] == rest_views[j - 1]);
                }
            }
            assert forall|j: int| 0 <= j < cs.len() implies (#[trigger] cs[j]).can_alloc() by {
                if j > 0 {
                    assert(cs[j] == cs.drop_first()[j - 1]);
                }
            }
        }
        Ok(rest)
    }
}

/// A well-formed chain maps well-formed inputs to well-formed outputs and
/// stays well-formed through a training forward.
pub proof fn lemma_chain_fwd_wf<T: Module>(v: Seq<T::V>, x: TensorModel)
    requires
        list_wf::<T>(v),
        x.wf(),
    ensures
        chain_fwd::<T>(v, x) matches Ok(y) ==> y.wf(),
        chain_fwd_mut::<T>(v, x).1 matches Ok(y) ==> y.wf(),
        list_wf::<T>(chain_fwd_mut::<T>(v, x).0),
    decreases v.len(),
{
    if v.len() > 0 {
        T::lemma_fwd_wf(v[0], x);
        assert(list_wf::<T>(v.drop_first())) by {
            assert(forall|i: int|
                0 <= i < v.drop_first().len() ==> v.drop_first()[i] == v[i + 1]);
        }
        match T::fwd_of(v[0], x) {
            Ok(y) => {
                lemma_chain_fwd_wf::<T>(v.drop_first(), y);
            },
            Err(_) => (),
        }
        let (m0, r0) = T::fwd_mut_of(v[0], x);
        match r0 {
            Ok(y) => {
                lemma_chain_fwd_wf::<T>(v.drop_first(), y);
                let (rest, _) = chain_fwd_mut::<T>(v.drop_first(), y);
                assert forall|i: int|
                    0 <= i < (seq![m0] + rest).len() implies T::v_wf(
                    #[trigger] (seq![m0] + rest)[i],
                ) by {
                    if i == 0 {
                        assert((seq![m0] + rest)[0] == m0);
                    } else {
                        assert((seq![m0] + rest)[i] == rest[i - 1]);
                    }
                }
            },
            Err(_) => {
                assert forall|i: int|
                    0 <= i < (seq![m0] + v.drop_first()).len() implies T::v_wf(
                    #[trigger] (seq![m0] + v.drop_first())[i],
                ) by {
                    if i == 0 {
                        assert((seq![m0] + v.drop_first())[0] == m0);
                    } else {
                        assert((seq![m0] + v.drop_first())[i] == v.drop_first()[i - 1]);
                    }
                }
            },
        }
    }
}


/// Equal prefixes of length `i + 1` give equal prefixes of length `i`.
pub proof fn lemma_take_shrink<A>(s: Seq<A>, t: Seq<A>, i: int)
    requires
        0 <= i,
        i + 1 <= s.len(),
        i + 1 <= t.len(),
        s.take(i + 1) == t.take(i + 1),
    ensures
        s.take(i) == t.take(i),
{
    assert forall|j: int| 0 <= j < i implies s.take(i)[j] == t.take(i)[j] by {
        assert(s.take(i + 1)[j] == t.take(i + 1)[j]);
    }
    assert(s.take(i) =~= t.take(i));
}

/// Shapes distribute over concatenation.
pub proof fn lemma_shapes_concat(a: Seq<TensorModel>, b: Seq<TensorModel>)
    ensures
        crate::base::shapes_of(a + b) == crate::base::shapes_of(a) + crate::base::shapes_of(b),
{
    assert(crate::base::shapes_of(a + b) =~= crate::base::shapes_of(a)
        + crate::base::shapes_of(b));
}

/// The built list is well-formed and its tensor shapes do not depend on the
/// identifier counter.
pub proof fn lemma_list_built_deterministic<C: BuildOnDevice>(cs: Seq<C>, a: u64, b: u64)
    requires
        list_c_wf::<C>(cs),
        list_can_alloc::<C>(cs),
    ensures
        list_wf::<C::Built>(list_built::<C>(cs, a)),
        crate::base::shapes_of(list_tensors::<C::Built>(list_built::<C>(cs, a)))
            == crate::base::shapes_of(list_tensors::<C::Built>(list_built::<C>(cs, b))),
        crate::base::shapes_of(list_params::<C::Built>(list_built::<C>(cs, a)))
            == crate::base::shapes_of(list_params::<C::Built>(list_built::<C>(cs, b))),
        a + list_n_ids::<C>(cs) <= u64::MAX ==> {
            &&& crate::base::ids_in(
                list_tensors::<C::Built>(list_built::<C>(cs, a)),
                a as int,
                a + list_n_ids::<C>(cs),
            )
            &&& crate::base::ids_increasing(list_tensors::<C::Built>(list_built::<C>(cs, a)))
            &&& crate::base::ids_in(
                list_params::<C::Built>(list_built::<C>(cs, a)),
                a as int,
                a + list_n_ids::<C>(cs),
            )
            &&& crate::base::ids_increasing(list_params::<C::Built>(list_built::<C>(cs, a)))
        },
    decreases cs.len(),
{
    if cs.len() == 0 {
        assert(list_built::<C>(cs, a) =~= Seq::<<C::Built as View>::V>::empty());
        assert(list_built::<C>(cs, b) =~= Seq::<<C::Built as View>::V>::empty());
        assert(crate::base::shapes_of(list_tensors::<C::Built>(list_built::<C>(cs, a)))
            =~= crate::base::shapes_of(list_tensors::<C::Built>(list_built::<C>(cs, b))));
        assert(crate::base::shapes_of(list_params::<C::Built>(list_built::<C>(cs, a)))
            =~= crate::base::shapes_of(list_params::<C::Built>(list_built::<C>(cs, b))));
    } else {
        let ha = cs[0].built_model(a);
        let hb = cs[0].built_model(b);
        cs[0].lemma_build_deterministic(a, b);
        cs[0].lemma_build_deterministic(a, (a + cs[0].n_ids()) as u64);
        assert(forall|j: int| 0 <= j < cs.drop_first().len() ==> cs.drop_first()[j] == cs[j + 1]);
        lemma_list_built_deterministic::<C>(
            cs.drop_first(),
            (a + cs[0].n_ids()) as u64,
            (b + cs[0].n_ids()) as u64,
        );
        let ta = list_built::<C>(cs, a);
        let tb = list_built::<C>(cs, b);
        assert(ta == seq![ha] + list_built::<C>(cs.drop_first(), (a + cs[0].n_ids()) as u64));
        assert forall|j: int| 0 <= j < ta.len() implies <C::Built as BuiltModule>::v_wf(
            #[trigger] ta[j],
        ) by {
            if j == 0 {
                assert(ta[0] == ha);
            } else {
                assert(ta[j] == list_built::<C>(cs.drop_first(), (a + cs[0].n_ids()) as u64)[j
                    - 1]);
            }
        }
        assert(list_tensors::<C::Built>(ta) == <C::Built as BuiltModule>::tensors_of(ta[0])
            + list_tensors::<C::Built>(ta.drop_first()));
        assert(ta[0] == ha);
        assert(ta.drop_first() =~= list_built::<C>(cs.drop_first(), (a + cs[0].n_ids()) as u64));
        assert(tb[0] == hb);
        assert(tb.drop_first() =~= list_built::<C>(cs.drop_first(), (b + cs[0].n_ids()) as u64));
        lemma_shapes_concat(
            <C::Built as BuiltModule>::tensors_of(ha),
            list_tensors::<C::Built>(ta.drop_first()),
        );
        lemma_shapes_concat(
            <C::Built as BuiltModule>::tensors_of(hb),
            list_tensors::<C::Built>(tb.drop_first()),
        );
        lemma_shapes_concat(
            <C::Built as BuiltModule>::params_of(ha),
            list_params::<C::Built>(ta.drop_first()),
        );
        lemma_shapes_concat(
            <C::Built as BuiltModule>::params_of(hb),
            list_params::<C::Built>(tb.drop_first()),
        );
        if a + list_n_ids::<C>(cs) <= u64::MAX {
            let n0 = cs[0].n_ids();
            let rest = list_n_ids::<C>(cs.drop_first());
            assert(list_n_ids::<C>(cs) == n0 + rest);
            crate::base::lemma_ids_concat(
                <C::Built as BuiltModule>::tensors_of(ha),
                list_tensors::<C::Built>(ta.drop_first()),
                a as int,
                a + n0,
                a + n0 + rest,
            );
            crate::base::lemma_ids_concat(
                <C::Built as BuiltModule>::params_of(ha),
                list_params::<C::Built>(ta.drop_first()),
                a as int,
                a + n0,
                a + n0 + rest,
            );
        }
    }
}

impl<C: BuildOnDevice> BuildOnDevice for ModuleList<C> {
    type Built = ModuleList<C::Built>;

    open spec fn c_wf(&self) -> bool {
        list_c_wf::<C>(self.0@)
    }

    open spec fn can_alloc(&self) -> bool {
        list_can_alloc::<C>(self.0@)
    }

    open spec fn n_ids(&self) -> nat {
        list_n_ids::<C>(self.0@)
    }

    open spec fn built_model(&self, id0: u64) -> Seq<<C::Built as View>::V> {
        list_built::<C>(self.0@, id0)
    }

    proof fn lemma_build_deterministic(&self, a: u64, b: u64) {
        lemma_list_built_deterministic::<C>(self.0@, a, b);
        assert(<ModuleList<C::Built> as BuiltModule>::v_wf(self.built_model(a)));
        assert(crate::base::shapes_of(
            <ModuleList<C::Built> as BuiltModule>::tensors_of(self.built_model(a)),
        ) == crate::base::shapes_of(
            <ModuleList<C::Built> as BuiltModule>::tensors_of(self.built_model(b)),
        ));
        assert(crate::base::shapes_of(
            <ModuleList<C::Built> as BuiltModule>::params_of(self.built_model(a)),
        ) == crate::base::shapes_of(
            <ModuleList<C::Built> as BuiltModule>::params_of(self.built_model(b)),
        ));
    }

    fn try_build_on_device(&self, dev: &mut Device) -> (r: Result<ModuleList<C::Built>, Error>) {
        proof {
            assert(self.0@.skip(0) =~= self.0@);
        }
        match build_from(&self.0, 0, dev) {
            Ok(v) => {
                let built = ModuleList(v);
                proof {
                    assert(built@ == self.built_model(old(dev).next_id));
                    assert(<ModuleList<C::Built> as BuiltModule>::v_wf(built@));
                    assert(final(dev).next_id == old(dev).next_id + self.n_ids());
                }
                Ok(built)
            },
            Err(e) => Err(e),
        }
    }
}

/// Elementwise reset relation: every element of the list was reset.
pub open spec fn list_reset_rel<T: ResetParams>(pre: Seq<T::V>, post: Seq<T::V>) -> bool {
    pre.len() == post.len() && forall|i: int|
        0 <= i < pre.len() ==> T::reset_rel(#[trigger] pre[i], post[i])
}

/// Resets the suffix starting at `i`, element by element.
fn reset_from<T: ResetParams>(v: &mut Vec<T>, i: usize, dev: &mut Device) -> (r: Result<
    (),
    Error,
>)
    requires
        i <= old(v)@.len(),
        list_wf::<T>(views_of(old(v)@).skip(i as int)),
    ensures
        r is Ok,
        final(v)@.len() == old(v)@.len(),
        views_of(final(v)@).take(i as int) == views_of(old(v)@).take(i as int),
        list_wf::<T>(views_of(final(v)@).skip(i as int)),
        list_reset_rel::<T>(views_of(old(v)@).skip(i as int), views_of(final(v)@).skip(i as int)),
        final(dev).next_id == old(dev).next_id,
    decreases old(v)@.len() - i,
{
    if i == v.len() {
        proof {
            assert(views_of(final(v)@).take(i as int) =~= views_of(old(v)@).take(i as int));
        }
        Ok(())
    } else {
        let ghost vs = views_of(old(v)@).skip(i as int);
        proof {
            assert(vs[0] == old(v)@[i as int]@);
            assert(vs.drop_first() =~= views_of(old(v)@).skip(i + 1));
            assert(forall|j: int| 0 <= j < vs.drop_first().len() ==> vs.drop_first()[j] == vs[j
                + 1]);
        }
        let mut m = v.remove(i);
        let r0 = m.try_reset_params(dev);
        let ghost mv = m@;
        v.insert(i, m);
        match r0 {
            Ok(()) => {},
            Err(e) => {
                return Err(e);
            },
        }
        proof {
            assert(views_of(v@).skip(i + 1) =~= views_of(old(v)@).skip(i + 1));
            assert(views_of(v@)[i as int] == mv);
            assert(views_of(v@).take(i as int) =~= views_of(old(v)@).take(i as int));
        }
        let rr = reset_from(v, i + 1, dev);
        proof {
            lemma_take_shrink(views_of(final(v)@), views_of(v@), i as int);
            assert(views_of(final(v)@).take(i as int) == views_of(old(v)@).take(i as int));
            let pre = views_of(old(v)@).skip(i as int);
            let post = views_of(final(v)@).skip(i as int);
            assert(views_of(final(v)@)[i as int] == views_of(final(v)@).take(i + 1)[i as int]);
            assert(views_of(final(v)@)[i as int] == mv);
            assert(post[0] == mv);
            assert(post.drop_first() =~= views_of(final(v)@).skip(i + 1));
            assert forall|j: int| 0 <= j < pre.len() implies T::reset_rel(
                #[trigger] pre[j],
                post[j],
            ) by {
                if j > 0 {
                    assert(pre[j] == vs.drop_first()[j - 1]);
                    assert(post[j] == post.drop_first()[j - 1]);
                }
            }
            assert forall|j: int| 0 <= j < post.len() implies T::v_wf(#[trigger] post[j]) by {
                if j > 0 {
                    assert(post[j] == post.drop_first()[j - 1]);
                }
            }
        }
        rr
    }
}

impl<T: ResetParams> ResetParams for ModuleList<T> {
    open spec fn reset_rel(pre: Seq<T::V>, post: Seq<T::V>) -> bool {
        list_reset_rel::<T>(pre, post)
    }

    fn try_reset_params(&mut self, dev: &mut Device) -> (r: Result<(), Error>) {
        proof {
            assert(views_of(old(self).0@).skip(0) =~= views_of(old(self).0@));
        }
        let r = reset_from(&mut self.0, 0, dev);
        proof {
            assert(views_of(final(self).0@).skip(0) =~= views_of(final(self).0@));
        }
        r
    }
}

/// Updates the suffix starting at `i`, threading the optimizer state and the
/// missing-identity list through the elements in order.
fn upd_from<T: UpdateParams, O: Optimizer>(
    v: &mut Vec<T>,
    i: usize,
    opt: &mut O,
    grads: &Gradients,
    missing: &mut Vec<u64>,
) -> (r: Result<(), Error>)
    requires
        i <= old(v)@.len(),
        list_wf::<T>(views_of(old(v)@).skip(i as int)),
        O::o_wf(old(opt)@),
        grads.wf(),
        crate::base::grads_match(list_params::<T>(views_of(old(v)@).skip(i as int)), grads@),
    ensures
        r is Ok,
        final(v)@.len() == old(v)@.len(),
        views_of(final(v)@).take(i as int) == views_of(old(v)@).take(i as int),
        list_wf::<T>(views_of(final(v)@).skip(i as int)),
        O::o_wf(final(opt)@),
        ({
            let (of, ps2, m2) = upd_fold::<O>(
                old(opt)@,
                list_params::<T>(views_of(old(v)@).skip(i as int)),
                grads@,
                old(missing)@,
            );
            &&& views_of(final(v)@).skip(i as int) == list_with_params::<T>(
                views_of(old(v)@).skip(i as int),
                ps2,
            )
            &&& final(opt)@ == of
            &&& final(missing)@ == m2
        }),
    decreases old(v)@.len() - i,
{
    let ghost vs = views_of(old(v)@).skip(i as int);
    if i == v.len() {
        proof {
            assert(vs =~= Seq::<T::V>::empty());
            assert(views_of(final(v)@).take(i as int) =~= views_of(old(v)@).take(i as int));
            assert(list_with_params::<T>(vs, Seq::<TensorModel>::empty()) =~= vs);
        }
        Ok(())
    } else {
        proof {
            assert(vs[0] == old(v)@[i as int]@);
            assert(vs.drop_first() =~= views_of(old(v)@).skip(i + 1));
            assert(forall|j: int| 0 <= j < vs.drop_first().len() ==> vs.drop_first()[j] == vs[j
                + 1]);
            assert(list_params::<T>(vs) == T::params_of(vs[0]) + list_params::<T>(
                vs.drop_first(),
            ));
            crate::base::lemma_grads_match_split(
                T::params_of(vs[0]),
                list_params::<T>(vs.drop_first()),
                grads@,
            );
        }
        let mut m = v.remove(i);
        let r0 = m.try_update_params(opt, grads, missing);
        let ghost mv = m@;
        v.insert(i, m);
        match r0 {
            Ok(()) => {},
            Err(e) => {
                proof {
                    assert(false);
                }
                return Err(e);
            },
        }
        proof {
            assert(views_of(v@).skip(i + 1) =~= views_of(old(v)@).skip(i + 1));
        }
        let rr = upd_from(v, i + 1, opt, grads, missing);
        proof {
            let pa = T::params_of(vs[0]);
            let pb = list_params::<T>(vs.drop_first());
            crate::base::lemma_upd_fold_concat::<O>(old(opt)@, pa, pb, grads@, old(missing)@);
            crate::base::lemma_upd_fold_len::<O>(old(opt)@, pa, grads@, old(missing)@);
            let (o1, pa2, m1) = upd_fold::<O>(old(opt)@, pa, grads@, old(missing)@);
            let (o2, pb2, m2) = upd_fold::<O>(o1, pb, grads@, m1);
            assert((pa2 + pb2).take(pa.len() as int) =~= pa2);
            assert((pa2 + pb2).skip(pa.len() as int) =~= pb2);
            let post = views_of(final(v)@).skip(i as int);
            lemma_take_shrink(views_of(final(v)@), views_of(v@), i as int);
            assert(views_of(v@).take(i as int) =~= views_of(old(v)@).take(i as int));
            assert(views_of(final(v)@).take(i as int) == views_of(old(v)@).take(i as int));
            assert(views_of(final(v)@)[i as int] == views_of(final(v)@).take(i + 1)[i as int]);
            assert(views_of(v@)[i as int] == mv);
            assert(post[0] == mv);
            assert(post.drop_first() =~= views_of(final(v)@).skip(i + 1));
            assert(post =~= seq![T::with_params(vs[0], pa2)] + list_with_params::<T>(
                vs.drop_first(),
                pb2,
            ));
            assert(list_with_params::<T>(vs, pa2 + pb2) == seq![
                T::with_params(vs[0], (pa2 + pb2).take(pa.len() as int)),
            ] + list_with_params::<T>(vs.drop_first(), (pa2 + pb2).skip(pa.len() as int)));
            assert forall|j: int| 0 <= j < post.len() implies T::v_wf(#[trigger] post[j]) by {
                if j > 0 {
                    assert(post[j] == post.drop_first()[j - 1]);
                }
            }
        }
        rr
    }
}

impl<T: UpdateParams> UpdateParams for ModuleList<T> {
    fn try_update_params<O: Optimizer>(
        &mut self,
        opt: &mut O,
        grads: &Gradients,
        missing: &mut Vec<u64>,
    ) -> (r: Result<(), Error>) {
        proof {
            assert(views_of(old(self).0@).skip(0) =~= views_of(old(self).0@));
        }
        let r = upd_from(&mut self.0, 0, opt, grads, missing);
        proof {
            assert(views_of(final(self).0@).skip(0) =~= views_of(final(self).0@));
        }
        r
    }
}

/// Zeroes the gradients of the suffix starting at `i`.
fn zero_from<T: ZeroGrads>(v: &Vec<T>, i: usize, grads: &mut Gradients) -> (r: Result<(), Error>)
    requires
        i <= v@.len(),
        list_wf::<T>(views_of(v@).skip(i as int)),
        old(grads).wf(),
    ensures
        r is Ok,
        final(grads).wf(),
        final(grads)@ == zg_fold(list_params::<T>(views_of(v@).skip(i as int)), old(grads)@),
    decreases v@.len() - i,
{
    let ghost vs = views_of(v@).skip(i as int);
    if i == v.len() {
        proof {
            assert(vs =~= Seq::<T::V>::empty());
        }
        Ok(())
    } else {
        proof {
            assert(vs[0] == v@[i as int]@);
            assert(vs.drop_first() =~= views_of(v@).skip(i + 1));
            assert(forall|j: int| 0 <= j < vs.drop_first().len() ==> vs.drop_first()[j] == vs[j
                + 1]);
        }
        let r0 = v[i].try_zero_grads(grads);
        match r0 {
            Ok(()) => {},
            Err(e) => {
                proof {
                    assert(false);
                }
                return Err(e);
            },
        }
        let rr = zero_from(v, i + 1, grads);
        proof {
            crate::base::lemma_zg_fold_concat(
                T::params_of(vs[0]),
                list_params::<T>(vs.drop_first()),
                old(grads)@,
            );
        }
        rr
    }
}

impl<T: ZeroGrads> ZeroGrads for ModuleList<T> {
    fn try_zero_grads(&self, grads: &mut Gradients) -> (r: Result<(), Error>) {
        proof {
            assert(views_of(self.0@).skip(0) =~= views_of(self.0@));
        }
        zero_from(&self.0, 0, grads)
    }
}


/// The records of the list elements from position `i` on: element `k` is
/// keyed under the decimal rendering of its position.
pub open spec fn list_recs_from<T: crate::serialize::SaveSafeTensors>(
    v: Seq<T::V>,
    loc: Seq<char>,
    i: int,
) -> Seq<crate::serialize::RecordModel>
    decreases v.len() - i,
{
    if i < 0 || i >= v.len() {
        Seq::empty()
    } else {
        T::recs_of(v[i], loc + crate::serialize::dec_str(i as nat) + "/"@) + list_recs_from::<T>(
            v,
            loc,
            i + 1,
        )
    }
}

/// Whether every element's byte payloads are countable.
pub open spec fn list_bytes_fit<T: crate::serialize::SaveSafeTensors>(v: Seq<T::V>) -> bool {
    forall|i: int| 0 <= i < v.len() ==> T::bytes_fit(#[trigger] v[i])
}

/// Writes the records of the elements from position `i` on.
fn write_from<T: crate::serialize::SaveSafeTensors>(
    v: &Vec<T>,
    i: usize,
    loc: &str,
    out: &mut Vec<crate::serialize::Record>,
)
    requires
        i <= v@.len(),
        list_wf::<T>(views_of(v@)),
        list_bytes_fit::<T>(views_of(v@)),
    ensures
        crate::vecs::views_of(final(out)@) == crate::vecs::views_of(old(out)@)
            + list_recs_from::<T>(views_of(v@), loc@, i as int),
    decreases v@.len() - i,
{
    if i == v.len() {
        proof {
            assert(crate::vecs::views_of(out@) =~= crate::vecs::views_of(out@)
                + list_recs_from::<T>(views_of(v@), loc@, i as int));
        }
    } else {
        let idx_s = crate::serialize::dec_digits(i as u64);
        let mut p = <String as vstd::string::StringExecFns>::from_str(loc);
        vstd::string::StringExecFns::append(&mut p, idx_s.as_str());
        vstd::string::StringExecFns::append(&mut p, "/");
        proof {
            assert(p@ == loc@ + crate::serialize::dec_str(i as nat) + "/"@);
            assert(views_of(v@)[i as int] == v@[i as int]@);
        }
        let ghost before = crate::vecs::views_of(out@);
        v[i].write_safetensors(p.as_str(), out);
        write_from(v, i + 1, loc, out);
        proof {
            assert(crate::vecs::views_of(final(out)@) =~= before + list_recs_from::<T>(
                views_of(v@),
                loc@,
                i as int,
            ));
        }
    }
}

impl<T: crate::serialize::SaveSafeTensors> crate::serialize::SaveSafeTensors for ModuleList<T> {
    open spec fn recs_of(v: Seq<T::V>, loc: Seq<char>) -> Seq<crate::serialize::RecordModel> {
        list_recs_from::<T>(v, loc, 0)
    }

    open spec fn bytes_fit(v: Seq<T::V>) -> bool {
        list_bytes_fit::<T>(v)
    }

    fn write_safetensors(&self, loc: &str, out: &mut Vec<crate::serialize::Record>) {
        write_from(&self.0, 0, loc, out);
    }
}

/// Loads the list elements from position `i` on, in order, stopping at the
/// first failure; element `k` looks its records up under the decimal
/// rendering of its position.
pub open spec fn list_load_from<T: crate::serialize::LoadSafeTensors>(
    v: Seq<T::V>,
    recs: Seq<crate::serialize::RecordModel>,
    loc: Seq<char>,
    i: int,
) -> (Seq<T::V>, Result<(), crate::error::LoadError>)
    decreases v.len() - i,
{
    if i < 0 || i >= v.len() {
        (v, Ok(()))
    } else {
        let (e2, r) = T::load_model(v[i], recs, loc + crate::serialize::dec_str(i as nat) + "/"@);
        let v2 = v.update(i, e2);
        match r {
            Err(e) => (v2, Err(e)),
            Ok(()) => list_load_from::<T>(v2, recs, loc, i + 1),
        }
    }
}

/// Loads the elements from position `i` on.
fn read_from<T: crate::serialize::LoadSafeTensors>(
    v: &mut Vec<T>,
    i: usize,
    loc: &str,
    recs: &Vec<crate::serialize::Record>,
) -> (r: Result<(), crate::error::LoadError>)
    requires
        i <= old(v)@.len(),
        list_wf::<T>(views_of(old(v)@)),
    ensures
        final(v)@.len() == old(v)@.len(),
        list_wf::<T>(views_of(final(v)@)),
        ({
            let (ms, rr) = list_load_from::<T>(
                views_of(old(v)@),
                crate::vecs::views_of(recs@),
                loc@,
                i as int,
            );
            &&& views_of(final(v)@) == ms
            &&& r == rr
        }),
    decreases old(v)@.len() - i,
{
    if i == v.len() {
        Ok(())
    } else {
        let idx_s = crate::serialize::dec_digits(i as u64);
        let mut p = <String as vstd::string::StringExecFns>::from_str(loc);
        vstd::string::StringExecFns::append(&mut p, idx_s.as_str());
        vstd::string::StringExecFns::append(&mut p, "/");
        proof {
            assert(p@ == loc@ + crate::serialize::dec_str(i as nat) + "/"@);
            assert(views_of(old(v)@)[i as int] == old(v)@[i as int]@);
        }
        let mut m = v.remove(i);
        let r0 = m.read_safetensors(p.as_str(), recs);
        let ghost mv = m@;
        v.insert(i, m);
        proof {
            assert(views_of(v@) =~= views_of(old(v)@).update(i as int, mv));
            assert(forall|j: int|
                0 <= j < views_of(v@).len() ==> views_of(v@)[j] == views_of(old(v)@).update(
                    i as int,
                    mv,
                )[j]);
            assert(list_wf::<T>(views_of(v@))) by {
                assert(forall|j: int|
                    0 <= j < views_of(v@).len() && j != i ==> views_of(v@)[j] == views_of(
                        old(v)@,
                    )[j]);
            }
        }
        match r0 {
            Ok(()) => {},
            Err(e) => {
                return Err(e);
            },
        }
        read_from(v, i + 1, loc, recs)
    }
}

impl<T: crate::serialize::LoadSafeTensors> crate::serialize::LoadSafeTensors for ModuleList<T> {
    open spec fn load_model(
        v: Seq<T::V>,
        recs: Seq<crate::serialize::RecordModel>,
        loc: Seq<char>,
    ) -> (Seq<T::V>, Result<(), crate::error::LoadError>) {
        list_load_from::<T>(v, recs, loc, 0)
    }

    fn read_safetensors(&mut self, loc: &str, recs: &Vec<crate::serialize::Record>) -> (r: Result<
        (),
        crate::error::LoadError,
    >) {
        read_from(&mut self.0, 0, loc, recs)
    }
}

} // verus!

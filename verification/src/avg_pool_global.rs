use vstd::arithmetic::mul::{
    lemma_mul_inequality, lemma_mul_is_commutative, lemma_mul_is_distributive_add,
    lemma_mul_nonnegative,
};
use vstd::prelude::*;

use crate::base::{BuildOnDevice, BuiltModule, Module};
use crate::device::Device;
use crate::error::Error;
use crate::norm::wrap_sum;
use crate::ops::tdiv;
use crate::tensor::{numel, Tensor, TensorModel};

verus! {

broadcast use vstd::std_specs::vec::group_vec_axioms;

/// Global average pooling: reduces the two trailing spatial axes of a rank-3
/// `(channel, height, width)` or rank-4 `(batch, channel, height, width)`
/// input to their mean, yielding `(channel)` or `(batch, channel)`. A
/// parameterless functional module.
#[derive(Clone, Copy, Debug, PartialEq, Eq, Structural, Default)]
pub struct AvgPoolGlobal;

/// The mean of every spatial block: block `r` of `inner` contiguous elements
/// reduces to its wrap-around sum divided by the block size.
pub open spec fn avg_pool_model(x: TensorModel) -> Result<TensorModel, Error> {
    if !(x.shape.len() == 3 || x.shape.len() == 4) {
        Err(Error::Rank)
    } else if numel(x.shape.subrange(x.shape.len() - 2, x.shape.len() as int)) > usize::MAX
        || numel(x.shape.subrange(x.shape.len() - 2, x.shape.len() as int)) > i64::MAX {
        Err(Error::Alloc)
    } else {
        let inner = numel(x.shape.subrange(x.shape.len() - 2, x.shape.len() as int));
        let rows = numel(x.shape.take(x.shape.len() - 2));
        Ok(
            TensorModel {
                id: 0,
                shape: x.shape.take(x.shape.len() - 2),
                vals: Seq::new(
                    rows as nat,
                    |r: int|
                        tdiv(wrap_sum(x.vals.subrange(r * inner, r * inner + inner)), inner as i64),
                ),
                taped: x.taped,
            },
        )
    }
}

impl View for AvgPoolGlobal {
    type V = AvgPoolGlobal;

    open spec fn view(&self) -> AvgPoolGlobal {
        *self
    }
}

impl BuiltModule for AvgPoolGlobal {
    open spec fn v_wf(v: AvgPoolGlobal) -> bool {
        true
    }

    open spec fn tensors_of(v: AvgPoolGlobal) -> Seq<TensorModel> {
        Seq::empty()
    }

    open spec fn params_of(v: AvgPoolGlobal) -> Seq<TensorModel> {
        Seq::empty()
    }

    open spec fn with_params(v: AvgPoolGlobal, ps: Seq<TensorModel>) -> AvgPoolGlobal {
        v
    }

    proof fn lemma_tensors_wf(v: AvgPoolGlobal) {
    }
}

/// Splitting a shape before its two trailing axes splits its element count.
proof fn lemma_split_two(s: Seq<usize>)
    requires
        s.len() >= 2,
    ensures
        numel(s) == numel(s.take(s.len() - 2)) * numel(s.subrange(s.len() - 2, s.len() as int)),
{
    crate::linalg::lemma_numel_split_last(s);
    crate::linalg::lemma_numel_split_last(s.drop_last());
    assert(s.drop_last().drop_last() =~= s.take(s.len() - 2));
    assert(s.subrange(s.len() - 2, s.len() as int) =~= seq![s[s.len() - 2], s.last()]);
    assert(seq![s[s.len() - 2], s.last()].drop_first() =~= seq![s.last()]);
    assert(seq![s.last()].drop_first() =~= Seq::<usize>::empty());
    assert(numel(Seq::<usize>::empty()) == 1);
    let a = numel(s.take(s.len() - 2));
    let h = s[s.len() - 2] as int;
    let w = s.last() as int;
    assert(numel(seq![s.last()]) == w * 1);
    assert(numel(seq![s[s.len() - 2], s.last()]) == h * (w * 1));
    assert((a * h) * w == a * (h * (w * 1))) by (nonlinear_arith);
}

impl Module for AvgPoolGlobal {
    open spec fn fwd_pre(v: AvgPoolGlobal, x: TensorModel) -> bool {
        true
    }

    open spec fn fwd_mut_pre(v: AvgPoolGlobal, x: TensorModel) -> bool {
        true
    }

    open spec fn fwd_of(v: AvgPoolGlobal, x: TensorModel) -> Result<TensorModel, Error> {
        avg_pool_model(x)
    }

    open spec fn fwd_mut_of(v: AvgPoolGlobal, x: TensorModel) -> (
        AvgPoolGlobal,
        Result<TensorModel, Error>,
    ) {
        (v, avg_pool_model(x))
    }

    proof fn lemma_fwd_wf(v: AvgPoolGlobal, x: TensorModel) {
        if avg_pool_model(x) is Ok {
            let s = x.shape;
            crate::tensor::lemma_numel_nonneg(s.take(s.len() - 2));
            assert forall|i: int| 0 <= i <= s.take(s.len() - 2).len() implies numel(
                #[trigger] s.take(s.len() - 2).subrange(0, i),
            ) <= usize::MAX by {
                assert(s.take(s.len() - 2).subrange(0, i) =~= s.subrange(0, i));
            }
        }
    }

    fn try_forward(&self, x: Tensor) -> (r: Result<Tensor, Error>) {
        avg_pool_fwd(&x)
    }

    fn try_forward_mut(&mut self, x: Tensor) -> (r: Result<Tensor, Error>) {
        avg_pool_fwd(&x)
    }
}

/// Executes the global average pooling forward pass.
fn avg_pool_fwd(x: &Tensor) -> (r: Result<Tensor, Error>)
    requires
        x@.wf(),
    ensures
        crate::ops::res_model(r) == avg_pool_model(x@),
        r matches Ok(t) ==> t@.wf(),
{
    if x.shape.len() != 3 && x.shape.len() != 4 {
        return Err(Error::Rank);
    }
    let rank = x.shape.len();
    let h = x.shape[rank - 2];
    let w = x.shape[rank - 1];
    proof {
        assert(x@.shape.subrange(rank - 2, rank as int) =~= seq![h, w]);
        assert(seq![h, w].drop_first() =~= seq![w]);
        assert(seq![w].drop_first() =~= Seq::<usize>::empty());
        assert(numel(Seq::<usize>::empty()) == 1);
        assert(numel(seq![w]) == w * 1);
        assert(numel(seq![h, w]) == h * (w * 1));
        assert(h * (w * 1) == h * w) by (nonlinear_arith);
    }
    let inner = match h.checked_mul(w) {
        Some(i) => i,
        None => {
            return Err(Error::Alloc);
        },
    };
    if (inner as u64) > (i64::MAX as u64) {
        return Err(Error::Alloc);
    }
    proof {
        lemma_split_two(x@.shape);
        assert forall|i: int| 0 <= i <= x@.shape.take(rank - 2).len() implies numel(
            #[trigger] x@.shape.take(rank - 2).subrange(0, i),
        ) <= usize::MAX by {
            assert(x@.shape.take(rank - 2).subrange(0, i) =~= x@.shape.subrange(0, i));
        }
        crate::tensor::lemma_numel_nonneg(x@.shape.take(rank - 2));
    }
    let mut out_shape = crate::ops::copy_vec(&x.shape);
    out_shape.pop();
    out_shape.pop();
    proof {
        assert(out_shape@ =~= x@.shape.take(rank - 2));
    }
    let rows = match crate::tensor::numel_checked(&out_shape) {
        Some(rr) => rr,
        None => {
            proof {
                assert(false);
            }
            vstd::pervasive::unreached()
        },
    };
    let ghost model = avg_pool_model(x@)->Ok_0;
    let ghost model_at = |q: int|
        tdiv(wrap_sum(x@.vals.subrange(q * inner, q * inner + inner)), inner as i64);
    proof {
        assert(model.vals.len() == rows);
        assert forall|q: int| 0 <= q < rows implies model.vals[q] == model_at(q) by {
            assert(model.vals[q] == tdiv(
                wrap_sum(x@.vals.subrange(q * inner, q * inner + inner)),
                inner as i64,
            ));
        }
        vstd::std_specs::vec::axiom_spec_len(&x.vals);
        assert(0 * inner == 0) by (nonlinear_arith);
    }
    let mut vals: Vec<i64> = Vec::new();
    let mut r: usize = 0;
    while r < rows
        invariant
            0 <= r <= rows,
            x@.vals.len() == rows * inner,
            x@.vals.len() <= usize::MAX,
            inner <= i64::MAX,
            vals@.len() == r,
            model.vals.len() == rows,
            forall|q: int| 0 <= q < rows ==> model.vals[q] == model_at(q),
            model_at == (|q: int|
                tdiv(wrap_sum(x@.vals.subrange(q * inner, q * inner + inner)), inner as i64)),
            forall|q: int| 0 <= q < r ==> vals@[q] == model.vals[q],
        decreases rows - r,
    {
        proof {
            lemma_mul_inequality(r + 1, rows as int, inner as int);
            lemma_mul_is_distributive_add(inner as int, r as int, 1);
            lemma_mul_is_commutative(inner as int, r as int);
            lemma_mul_is_commutative(inner as int, r + 1);
            lemma_mul_nonnegative(r as int, inner as int);
        }
        let base = r * inner;
        let s = crate::norm::sum_range(&x.vals, base, inner);
        let v = if inner == 0 {
            0
        } else {
            crate::ops::tdiv_of(s, inner as i64)
        };
        proof {
            if inner == 0 {
                assert(tdiv(wrap_sum(x@.vals.subrange(base as int, base + inner)), 0i64) == 0);
            }
            assert(model.vals[r as int] == model_at(r as int));
        }
        vals.push(v);
        r += 1;
    }
    proof {
        assert(vals@ =~= model.vals);
    }
    Ok(Tensor { id: 0, shape: out_shape, vals, taped: x.taped })
}

impl BuildOnDevice for AvgPoolGlobal {
    type Built = AvgPoolGlobal;

    open spec fn c_wf(&self) -> bool {
        true
    }

    open spec fn can_alloc(&self) -> bool {
        true
    }

    open spec fn n_ids(&self) -> nat {
        0
    }

    open spec fn built_model(&self, id0: u64) -> AvgPoolGlobal {
        *self
    }

    proof fn lemma_build_deterministic(&self, a: u64, b: u64) {
    }

    fn try_build_on_device(&self, dev: &mut Device) -> (r: Result<AvgPoolGlobal, Error>) {
        Ok(*self)
    }
}

} // verus!

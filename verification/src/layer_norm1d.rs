use vstd::arithmetic::div_mod::lemma_fundamental_div_mod_converse;
use vstd::arithmetic::mul::{
    lemma_mul_inequality, lemma_mul_is_commutative, lemma_mul_is_distributive_add,
    lemma_mul_nonnegative,
};
use vstd::prelude::*;

use crate::base::{shapes_of, upd_fold, BuildOnDevice, BuiltModule, Module, Optimizer,
    ResetParams, UpdateParams, ZeroGrads};
use crate::device::Device;
use crate::error::Error;
use crate::grads::Gradients;
use crate::norm::{csq_seq, std_val, wrap_sum};
use crate::ops::{res_model, tdiv};
use crate::tensor::{numel, Tensor, TensorModel};

verus! {

broadcast use vstd::std_specs::vec::group_vec_axioms;

/// One element of a layer-normalized tensor: its row (the trailing feature
/// axis) is centered on the row mean, divided by the square root of the row's
/// biased variance plus epsilon, then scaled and shifted by the learned
/// per-feature parameters.
pub open spec fn ln_val(
    xv: Seq<i64>,
    gv: Seq<i64>,
    bv: Seq<i64>,
    eps: i64,
    m: int,
    p: int,
) -> i64 {
    let r = p / m;
    let j = p % m;
    let row = xv.subrange(r * m, r * m + m);
    let mean = tdiv(wrap_sum(row), m as i64);
    let var = tdiv(wrap_sum(csq_seq(row, mean)), m as i64);
    let sd = std_val(vstd::wrapping::i64_specs::wrapping_add(var, eps));
    vstd::wrapping::i64_specs::wrapping_add(
        vstd::wrapping::i64_specs::wrapping_mul(
            tdiv(vstd::wrapping::i64_specs::wrapping_sub(xv[p], mean), sd),
            gv[j],
        ),
        bv[j],
    )
}

/// Layer normalization over the trailing feature axis of a rank-1, rank-2 or
/// rank-3 input, followed by the learned affine scale and shift.
pub open spec fn layer_norm_model(
    x: TensorModel,
    gamma: TensorModel,
    beta: TensorModel,
    eps: i64,
) -> Result<TensorModel, Error> {
    if !(1 <= x.shape.len() <= 3) || gamma.shape.len() != 1 || beta.shape != gamma.shape {
        Err(Error::Rank)
    } else if x.shape.last() != gamma.shape[0] {
        Err(Error::Dim)
    } else if gamma.shape[0] > i64::MAX {
        Err(Error::Alloc)
    } else {
        Ok(
            TensorModel {
                id: 0,
                shape: x.shape,
                vals: Seq::new(
                    x.vals.len(),
                    |p: int|
                        ln_val(x.vals, gamma.vals, beta.vals, eps, gamma.shape[0] as int, p),
                ),
                taped: x.taped,
            },
        )
    }
}

/// Layer-normalization configuration: the feature size.
#[derive(Clone, Copy, Debug, PartialEq, Eq, Structural, Default)]
pub struct LayerNorm1D(pub usize);

/// The built layer-normalization module: learned scale and shift over the
/// trailing feature axis, plus the epsilon added to the variance before the
/// square root.
#[derive(Clone, Debug)]
pub struct DeviceLayerNorm1D {
    pub gamma: Tensor,
    pub beta: Tensor,
    pub epsilon: i64,
}

/// Model of a built layer-normalization module.
#[verifier::ext_equal]
pub struct DeviceLayerNorm1DV {
    pub gamma: TensorModel,
    pub beta: TensorModel,
    pub epsilon: i64,
}

impl View for DeviceLayerNorm1D {
    type V = DeviceLayerNorm1DV;

    open spec fn view(&self) -> DeviceLayerNorm1DV {
        DeviceLayerNorm1DV { gamma: self.gamma@, beta: self.beta@, epsilon: self.epsilon }
    }
}

impl BuiltModule for DeviceLayerNorm1D {
    open spec fn v_wf(v: DeviceLayerNorm1DV) -> bool {
        &&& v.gamma.wf()
        &&& v.beta.wf()
        &&& v.gamma.shape.len() == 1
        &&& v.beta.shape == v.gamma.shape
        &&& !v.gamma.taped
        &&& !v.beta.taped
    }

    open spec fn tensors_of(v: DeviceLayerNorm1DV) -> Seq<TensorModel> {
        seq![v.gamma, v.beta]
    }

    open spec fn params_of(v: DeviceLayerNorm1DV) -> Seq<TensorModel> {
        seq![v.gamma, v.beta]
    }

    open spec fn with_params(v: DeviceLayerNorm1DV, ps: Seq<TensorModel>) -> DeviceLayerNorm1DV {
        if ps.len() == 2 {
            DeviceLayerNorm1DV { gamma: ps[0], beta: ps[1], epsilon: v.epsilon }
        } else {
            v
        }
    }

    proof fn lemma_tensors_wf(v: DeviceLayerNorm1DV) {
    }
}

impl Module for DeviceLayerNorm1D {
    open spec fn fwd_pre(v: DeviceLayerNorm1DV, x: TensorModel) -> bool {
        true
    }

    open spec fn fwd_mut_pre(v: DeviceLayerNorm1DV, x: TensorModel) -> bool {
        true
    }

    open spec fn fwd_of(v: DeviceLayerNorm1DV, x: TensorModel) -> Result<TensorModel, Error> {
        layer_norm_model(x, v.gamma, v.beta, v.epsilon)
    }

    open spec fn fwd_mut_of(v: DeviceLayerNorm1DV, x: TensorModel) -> (
        DeviceLayerNorm1DV,
        Result<TensorModel, Error>,
    ) {
        (v, layer_norm_model(x, v.gamma, v.beta, v.epsilon))
    }

    proof fn lemma_fwd_wf(v: DeviceLayerNorm1DV, x: TensorModel) {
    }

    fn try_forward(&self, x: Tensor) -> (r: Result<Tensor, Error>) {
        layer_norm_fwd(&x, &self.gamma, &self.beta, self.epsilon)
    }

    fn try_forward_mut(&mut self, x: Tensor) -> (r: Result<Tensor, Error>) {
        layer_norm_fwd(&x, &self.gamma, &self.beta, self.epsilon)
    }
}

/// Executes the layer-normalization forward pass.
fn layer_norm_fwd(x: &Tensor, gamma: &Tensor, beta: &Tensor, eps: i64) -> (r: Result<
    Tensor,
    Error,
>)
    requires
        x@.wf(),
        gamma@.wf(),
        beta@.wf(),
        gamma@.shape.len() == 1,
        beta@.shape == gamma@.shape,
    ensures
        res_model(r) == layer_norm_model(x@, gamma@, beta@, eps),
        r matches Ok(t) ==> t@.wf(),
{
    if x.shape.len() < 1 || x.shape.len() > 3 {
        return Err(Error::Rank);
    }
    let m = gamma.shape[0];
    if x.shape[x.shape.len() - 1] != m {
        return Err(Error::Dim);
    }
    if (m as u64) > (i64::MAX as u64) {
        return Err(Error::Alloc);
    }
    proof {
        // gamma and beta have m elements each
        assert(gamma@.shape.drop_first() =~= Seq::<usize>::empty());
        assert(numel(Seq::<usize>::empty()) == 1);
        assert(gamma@.vals.len() == m * 1);
        assert(beta@.vals.len() == m * 1);
        crate::linalg::lemma_numel_split_last(x@.shape);
        crate::linalg::lemma_shape_fits_drop_last(x@.shape);
        crate::tensor::lemma_numel_nonneg(x@.shape.drop_last());
        assert(x@.shape.subrange(0, x@.shape.len() - 1) =~= x@.shape.drop_last());
    }
    let ghost rows_g = numel(x@.shape.drop_last());
    let mut prefix = crate::ops::copy_vec(&x.shape);
    prefix.pop();
    proof {
        assert(prefix@ =~= x@.shape.drop_last());
    }
    let rows = match crate::tensor::numel_checked(&prefix) {
        Some(rr) => rr,
        None => {
            proof {
                assert(false);
            }
            vstd::pervasive::unreached()
        },
    };
    let ghost model = layer_norm_model(x@, gamma@, beta@, eps)->Ok_0;
    let ghost model_at = |p: int| ln_val(x@.vals, gamma@.vals, beta@.vals, eps, m as int, p);
    if m == 0 {
        let empty_vals: Vec<i64> = Vec::new();
        proof {
            assert(rows_g * 0 == 0) by (nonlinear_arith);
            assert(x@.vals.len() == 0);
            assert(empty_vals@ =~= model.vals);
        }
        return Ok(
            Tensor { id: 0, shape: crate::ops::copy_vec(&x.shape), vals: empty_vals, taped: x.taped },
        );
    }
    proof {
        assert(model.vals.len() == x@.vals.len());
        assert forall|p: int| 0 <= p < model.vals.len() implies model.vals[p] == model_at(p) by {
            assert(model.vals[p] == ln_val(x@.vals, gamma@.vals, beta@.vals, eps, m as int, p));
        }
        assert(0 * m == 0) by (nonlinear_arith);
        vstd::std_specs::vec::axiom_spec_len(&x.vals);
    }
    let mut vals: Vec<i64> = Vec::new();
    let mut r: usize = 0;
    while r < rows
        invariant
            0 <= r <= rows,
            rows == rows_g,
            x@.vals.len() == rows * m,
            x@.vals.len() <= usize::MAX,
            gamma@.vals.len() == m,
            beta@.vals.len() == m,
            1 <= m <= i64::MAX,
            vals@.len() == r * m,
            model.vals.len() == rows * m,
            forall|p: int| 0 <= p < r * m ==> vals@[p] == model.vals[p],
            forall|p: int| 0 <= p < rows * m ==> model.vals[p] == model_at(p),
            model_at == (|p: int| ln_val(x@.vals, gamma@.vals, beta@.vals, eps, m as int, p)),
        decreases rows - r,
    {
        proof {
            lemma_mul_inequality(r + 1, rows as int, m as int);
            lemma_mul_is_distributive_add(m as int, r as int, 1);
            lemma_mul_is_commutative(m as int, r as int);
            lemma_mul_is_commutative(m as int, r + 1);
            lemma_mul_nonnegative(r as int, m as int);
        }
        let base = r * m;
        let ghost row = x@.vals.subrange(base as int, base + m);
        let s = crate::norm::sum_range(&x.vals, base, m);
        let mean = crate::ops::tdiv_of(s, m as i64);
        let sq = crate::norm::sum_range_csq(&x.vals, base, m, mean);
        let var = crate::ops::tdiv_of(sq, m as i64);
        let sd = crate::norm::std_of(var.wrapping_add(eps));
        let mut j: usize = 0;
        while j < m
            invariant
                0 <= j <= m,
                0 <= r < rows,
                base == r * m,
                x@.vals.len() == rows * m,
                x@.vals.len() <= usize::MAX,
                gamma@.vals.len() == m,
                beta@.vals.len() == m,
                m <= i64::MAX,
                (r + 1) * m <= rows * m,
                r * m + m == (r + 1) * m,
                r * m >= 0,
                row == x@.vals.subrange(base as int, base + m),
                mean == tdiv(wrap_sum(row), m as i64),
                var == tdiv(wrap_sum(csq_seq(row, mean)), m as i64),
                sd == std_val(vstd::wrapping::i64_specs::wrapping_add(var, eps)),
                sd >= 1,
                vals@.len() == r * m + j,
                model.vals.len() == rows * m,
                forall|p: int| 0 <= p < r * m + j ==> vals@[p] == model.vals[p],
                forall|p: int| 0 <= p < rows * m ==> model.vals[p] == model_at(p),
                model_at == (|p: int| ln_val(x@.vals, gamma@.vals, beta@.vals, eps, m as int, p)),
            decreases m - j,
        {
            proof {
                lemma_fundamental_div_mod_converse(
                    (r * m + j) as int,
                    m as int,
                    r as int,
                    j as int,
                );
                assert(model_at((r * m + j) as int) == ln_val(
                    x@.vals,
                    gamma@.vals,
                    beta@.vals,
                    eps,
                    m as int,
                    (r * m + j) as int,
                ));
            }
            let centered = x.vals[base + j].wrapping_sub(mean);
            let normed = crate::ops::tdiv_of(centered, sd);
            let v = normed.wrapping_mul(gamma.vals[j]).wrapping_add(beta.vals[j]);
            vals.push(v);
            j += 1;
        }
        r += 1;
    }
    proof {
        assert(vals@ =~= model.vals);
    }
    Ok(Tensor { id: 0, shape: crate::ops::copy_vec(&x.shape), vals, taped: x.taped })
}

impl BuildOnDevice for LayerNorm1D {
    type Built = DeviceLayerNorm1D;

    open spec fn c_wf(&self) -> bool {
        true
    }

    open spec fn can_alloc(&self) -> bool {
        crate::tensor::shape_fits(seq![self.0])
    }

    open spec fn n_ids(&self) -> nat {
        2
    }

    open spec fn built_model(&self, id0: u64) -> DeviceLayerNorm1DV {
        DeviceLayerNorm1DV {
            gamma: TensorModel::filled(id0, seq![self.0], 1),
            beta: TensorModel::filled((id0 + 1) as u64, seq![self.0], 0),
            epsilon: 1,
        }
    }

    proof fn lemma_build_deterministic(&self, a: u64, b: u64) {
        crate::tensor::lemma_numel_nonneg(seq![self.0]);
        assert(shapes_of(Self::Built::tensors_of(self.built_model(a))) =~= shapes_of(
            Self::Built::tensors_of(self.built_model(b)),
        ));
        assert(shapes_of(Self::Built::params_of(self.built_model(a))) =~= shapes_of(
            Self::Built::params_of(self.built_model(b)),
        ));
    }

    fn try_build_on_device(&self, dev: &mut Device) -> (r: Result<DeviceLayerNorm1D, Error>) {
        let mut shape: Vec<usize> = Vec::new();
        shape.push(self.0);
        proof {
            assert(shape@ =~= seq![self.0]);
        }
        let gamma = match dev.try_ones(&shape) {
            Ok(t) => t,
            Err(e) => {
                return Err(e);
            },
        };
        let beta = match dev.try_zeros(&shape) {
            Ok(t) => t,
            Err(e) => {
                return Err(e);
            },
        };
        let built = DeviceLayerNorm1D { gamma, beta, epsilon: 1 };
        proof {
            assert(built@ =~= self.built_model(old(dev).next_id));
        }
        Ok(built)
    }
}

impl ResetParams for DeviceLayerNorm1D {
    /// The scale is refilled with ones and the shift with zeros; frames and
    /// epsilon survive.
    open spec fn reset_rel(pre: DeviceLayerNorm1DV, post: DeviceLayerNorm1DV) -> bool {
        &&& post.gamma == TensorModel::filled(pre.gamma.id, pre.gamma.shape, 1)
        &&& post.beta == TensorModel::filled(pre.beta.id, pre.beta.shape, 0)
        &&& post.epsilon == pre.epsilon
    }

    fn try_reset_params(&mut self, dev: &mut Device) -> (r: Result<(), Error>) {
        crate::tensor::fill_const(&mut self.gamma, 1);
        crate::tensor::zero_fill(&mut self.beta);
        Ok(())
    }
}

impl UpdateParams for DeviceLayerNorm1D {
    fn try_update_params<O: Optimizer>(
        &mut self,
        opt: &mut O,
        grads: &Gradients,
        missing: &mut Vec<u64>,
    ) -> (r: Result<(), Error>) {
        proof {
            assert(Self::params_of(old(self)@) =~= seq![old(self)@.gamma] + seq![
                old(self)@.beta,
            ]);
            crate::base::lemma_grads_match_split(
                seq![old(self)@.gamma],
                seq![old(self)@.beta],
                grads@,
            );
            assert(seq![old(self)@.gamma][0] == old(self)@.gamma);
            assert(seq![old(self)@.beta][0] == old(self)@.beta);
        }
        let r1 = opt.update_tensor(&mut self.gamma, grads, missing);
        match r1 {
            Ok(()) => {},
            Err(e) => {
                proof {
                    assert(false);
                }
                return Err(e);
            },
        }
        let r2 = opt.update_tensor(&mut self.beta, grads, missing);
        proof {
            let g = old(self)@.gamma;
            let b = old(self)@.beta;
            crate::base::lemma_upd_fold_concat::<O>(
                old(opt)@,
                seq![g],
                seq![b],
                grads@,
                old(missing)@,
            );
            crate::base::lemma_upd_fold_one::<O>(old(opt)@, g, grads@, old(missing)@);
            let (o1, pa2, m1) = upd_fold::<O>(old(opt)@, seq![g], grads@, old(missing)@);
            crate::base::lemma_upd_fold_one::<O>(o1, b, grads@, m1);
            if grads@.contains_key(g.id) {
                O::lemma_step_frame(old(opt)@, g, grads@[g.id]);
            }
            if grads@.contains_key(b.id) {
                O::lemma_step_frame(o1, b, grads@[b.id]);
            }
            let (o2, pb2, m2) = upd_fold::<O>(o1, seq![b], grads@, m1);
            assert(final(self)@ =~= Self::with_params(old(self)@, pa2 + pb2));
        }
        r2
    }
}

impl ZeroGrads for DeviceLayerNorm1D {
    fn try_zero_grads(&self, grads: &mut Gradients) -> (r: Result<(), Error>) {
        grads.set_zero(&self.gamma);
        grads.set_zero(&self.beta);
        proof {
            assert(Self::params_of(self@) =~= seq![self@.gamma] + seq![self@.beta]);
            crate::base::lemma_zg_fold_concat(seq![self@.gamma], seq![self@.beta], old(grads)@);
            crate::base::lemma_zg_fold_one(self@.gamma, old(grads)@);
            crate::base::lemma_zg_fold_one(
                self@.beta,
                crate::base::zg_fold(seq![self@.gamma], old(grads)@),
            );
        }
        Ok(())
    }
}


impl crate::serialize::SaveSafeTensors for DeviceLayerNorm1D {
    open spec fn recs_of(v: DeviceLayerNorm1DV, loc: Seq<char>) -> Seq<
        crate::serialize::RecordModel,
    > {
        seq![
            crate::serialize::rec_of_tensor(loc + "gamma"@, v.gamma),
            crate::serialize::rec_of_tensor(loc + "beta"@, v.beta),
        ]
    }

    open spec fn bytes_fit(v: DeviceLayerNorm1DV) -> bool {
        v.gamma.vals.len() * 8 <= usize::MAX && v.beta.vals.len() * 8 <= usize::MAX
    }

    fn write_safetensors(&self, loc: &str, out: &mut Vec<crate::serialize::Record>) {
        crate::serialize::write_leaf(&self.gamma, loc, "gamma", out);
        crate::serialize::write_leaf(&self.beta, loc, "beta", out);
        proof {
            assert(crate::vecs::views_of(final(out)@) =~= crate::vecs::views_of(old(out)@)
                + Self::recs_of(self@, loc@));
        }
    }
}

impl crate::serialize::LoadSafeTensors for DeviceLayerNorm1D {
    open spec fn load_model(
        v: DeviceLayerNorm1DV,
        recs: Seq<crate::serialize::RecordModel>,
        loc: Seq<char>,
    ) -> (DeviceLayerNorm1DV, Result<(), crate::error::LoadError>) {
        let (g2, r1) = crate::serialize::load_leaf(v.gamma, recs, loc + "gamma"@);
        match r1 {
            Err(e) => (DeviceLayerNorm1DV { gamma: g2, ..v }, Err(e)),
            Ok(()) => {
                let (b2, r2) = crate::serialize::load_leaf(v.beta, recs, loc + "beta"@);
                (DeviceLayerNorm1DV { gamma: g2, beta: b2, ..v }, r2)
            },
        }
    }

    fn read_safetensors(&mut self, loc: &str, recs: &Vec<crate::serialize::Record>) -> (r: Result<
        (),
        crate::error::LoadError,
    >) {
        let p1 = crate::serialize::join_path(loc, "gamma");
        let r1 = crate::serialize::read_leaf(&mut self.gamma, recs, &p1);
        match r1 {
            Ok(()) => {},
            Err(e) => {
                proof {
                    assert(final(self)@ =~= Self::load_model(
                        old(self)@,
                        crate::vecs::views_of(recs@),
                        loc@,
                    ).0);
                }
                return Err(e);
            },
        }
        let p2 = crate::serialize::join_path(loc, "beta");
        let r2 = crate::serialize::read_leaf(&mut self.beta, recs, &p2);
        proof {
            assert(final(self)@ =~= Self::load_model(
                old(self)@,
                crate::vecs::views_of(recs@),
                loc@,
            ).0);
        }
        r2
    }
}
} // verus!

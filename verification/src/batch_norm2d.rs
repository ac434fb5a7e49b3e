use vstd::prelude::*;

use crate::base::{shapes_of, upd_fold, BuildOnDevice, BuiltModule, Module, Optimizer,
    ResetParams, UpdateParams, ZeroGrads};
use crate::device::Device;
use crate::error::Error;
use crate::grads::Gradients;
use crate::norm::{chan_csq_seq, chan_seq, std_val, wrap_sum};
use crate::ops::tdiv;
use crate::tensor::{numel, Tensor, TensorModel};

verus! {

broadcast use vstd::std_specs::vec::group_vec_axioms;

/// Batch count of a rank-3 or rank-4 input (a rank-3 input is a single
/// sample).
pub open spec fn bn_bc(s: Seq<usize>) -> int {
    if s.len() == 3 {
        1
    } else {
        s[0] as int
    }
}

/// Channel count of a rank-3 or rank-4 input.
pub open spec fn bn_cc(s: Seq<usize>) -> int {
    if s.len() == 3 {
        s[0] as int
    } else {
        s[1] as int
    }
}

/// Elements per channel and sample (the spatial extent).
pub open spec fn bn_inner(s: Seq<usize>) -> int {
    if s.len() == 3 {
        numel(s.subrange(1, 3))
    } else {
        numel(s.subrange(2, 4))
    }
}

/// Per-channel batch mean: the channel's wrap-around sum divided by the
/// number of reduced elements.
pub open spec fn bn_mean(xv: Seq<i64>, bc: int, cc: int, inner: int, c: int) -> i64 {
    tdiv(wrap_sum(chan_seq(xv, bc, cc, inner, c)), (bc * inner) as i64)
}

/// Per-channel biased batch variance: the mean of squared deviations from the
/// channel mean.
pub open spec fn bn_var(xv: Seq<i64>, bc: int, cc: int, inner: int, c: int) -> i64 {
    tdiv(
        wrap_sum(chan_csq_seq(xv, bc, cc, inner, c, bn_mean(xv, bc, cc, inner, c))),
        (bc * inner) as i64,
    )
}

/// All per-channel batch means.
pub open spec fn bn_means(xv: Seq<i64>, bc: int, cc: int, inner: int) -> Seq<i64> {
    Seq::new(cc as nat, |c: int| bn_mean(xv, bc, cc, inner, c))
}

/// All per-channel biased batch variances.
pub open spec fn bn_vars(xv: Seq<i64>, bc: int, cc: int, inner: int) -> Seq<i64> {
    Seq::new(cc as nat, |c: int| bn_var(xv, bc, cc, inner, c))
}

/// One element of a batch-normalized tensor given per-channel statistics:
/// centered on the channel mean, divided by the square root of the channel
/// variance plus epsilon, then scaled and shifted.
pub open spec fn bn_norm_val(
    xv: Seq<i64>,
    ms: Seq<i64>,
    vs: Seq<i64>,
    sc: Seq<i64>,
    bs: Seq<i64>,
    eps: i64,
    cc: int,
    inner: int,
    p: int,
) -> i64 {
    let c = (p / inner) % cc;
    vstd::wrapping::i64_specs::wrapping_add(
        vstd::wrapping::i64_specs::wrapping_mul(
            tdiv(
                vstd::wrapping::i64_specs::wrapping_sub(xv[p], ms[c]),
                std_val(vstd::wrapping::i64_specs::wrapping_add(vs[c], eps)),
            ),
            sc[c],
        ),
        bs[c],
    )
}

/// The exponential moving average of one running statistic:
/// `((den - num) * old + num * fresh) / den` for momentum `num / den`.
pub open spec fn ema_val(old_v: i64, fresh: i64, num: i64, den: i64) -> i64 {
    tdiv(
        vstd::wrapping::i64_specs::wrapping_add(
            vstd::wrapping::i64_specs::wrapping_mul(
                vstd::wrapping::i64_specs::wrapping_sub(den, num),
                old_v,
            ),
            vstd::wrapping::i64_specs::wrapping_mul(num, fresh),
        ),
        den,
    )
}

/// The unbiased variance used for the running estimate: the biased variance
/// rescaled by `n / (n - 1)`.
pub open spec fn unbiased_val(var: i64, n: i64) -> i64 {
    tdiv(
        vstd::wrapping::i64_specs::wrapping_mul(var, n),
        vstd::wrapping::i64_specs::wrapping_sub(n, 1),
    )
}

/// Whether a batch-normalization input fits the module: rank 3 or 4, channel
/// axis equal to the learned parameters' size, and statistics countable on
/// the machine.
pub open spec fn bn_check(s: Seq<usize>, c_mod: int) -> Result<(), Error> {
    if !(s.len() == 3 || s.len() == 4) {
        Err(Error::Rank)
    } else if bn_cc(s) != c_mod {
        Err(Error::Dim)
    } else if bn_inner(s) > usize::MAX || bn_bc(s) * bn_inner(s) > i64::MAX || bn_bc(s)
        * bn_inner(s) < 1 {
        Err(Error::Alloc)
    } else {
        Ok(())
    }
}

/// Batch-normalization configuration: the channel count.
#[derive(Clone, Copy, Debug, PartialEq, Eq, Structural, Default)]
pub struct BatchNorm2D(pub usize);

/// The built batch-normalization module: trainable scale and bias, running
/// mean and variance (non-trainable state), and the epsilon and momentum
/// scalars. Training forwards normalize with batch statistics and move the
/// running statistics by the momentum; inference forwards use the running
/// statistics and never touch state.
#[derive(Clone, Debug)]
pub struct DeviceBatchNorm2D {
    pub scale: Tensor,
    pub bias: Tensor,
    pub running_mean: Tensor,
    pub running_var: Tensor,
    pub epsilon: i64,
    pub momentum_num: i64,
    pub momentum_den: i64,
}

/// Model of a built batch-normalization module.
#[verifier::ext_equal]
pub struct DeviceBatchNorm2DV {
    pub scale: TensorModel,
    pub bias: TensorModel,
    pub running_mean: TensorModel,
    pub running_var: TensorModel,
    pub epsilon: i64,
    pub momentum_num: i64,
    pub momentum_den: i64,
}

impl View for DeviceBatchNorm2D {
    type V = DeviceBatchNorm2DV;

    open spec fn view(&self) -> DeviceBatchNorm2DV {
        DeviceBatchNorm2DV {
            scale: self.scale@,
            bias: self.bias@,
            running_mean: self.running_mean@,
            running_var: self.running_var@,
            epsilon: self.epsilon,
            momentum_num: self.momentum_num,
            momentum_den: self.momentum_den,
        }
    }
}

impl DeviceBatchNorm2DV {
    /// The training forward: fresh batch statistics normalize the input, and
    /// the running statistics move toward them by the momentum, the variance
    /// with the unbiased correction.
    pub open spec fn train_model(self, x: TensorModel) -> (
        DeviceBatchNorm2DV,
        Result<TensorModel, Error>,
    ) {
        match bn_check(x.shape, self.scale.shape[0] as int) {
            Err(e) => (self, Err(e)),
            Ok(()) => {
                let bc = bn_bc(x.shape);
                let cc = bn_cc(x.shape);
                let inner = bn_inner(x.shape);
                let n = (bc * inner) as i64;
                let ms = bn_means(x.vals, bc, cc, inner);
                let vs = bn_vars(x.vals, bc, cc, inner);
                let rm2 = self.running_mean.with_vals(
                    Seq::new(
                        cc as nat,
                        |c: int|
                            ema_val(
                                self.running_mean.vals[c],
                                ms[c],
                                self.momentum_num,
                                self.momentum_den,
                            ),
                    ),
                );
                let rv2 = self.running_var.with_vals(
                    Seq::new(
                        cc as nat,
                        |c: int|
                            ema_val(
                                self.running_var.vals[c],
                                unbiased_val(vs[c], n),
                                self.momentum_num,
                                self.momentum_den,
                            ),
                    ),
                );
                let y = TensorModel {
                    id: 0,
                    shape: x.shape,
                    vals: Seq::new(
                        x.vals.len(),
                        |p: int|
                            bn_norm_val(
                                x.vals,
                                ms,
                                vs,
                                self.scale.vals,
                                self.bias.vals,
                                self.epsilon,
                                cc,
                                inner,
                                p,
                            ),
                    ),
                    taped: x.taped,
                };
                (
                    DeviceBatchNorm2DV { running_mean: rm2, running_var: rv2, ..self },
                    Ok(y),
                )
            },
        }
    }

    /// The inference forward: the running statistics normalize the input;
    /// no state changes.
    pub open spec fn infer_model(self, x: TensorModel) -> Result<TensorModel, Error> {
        match bn_check(x.shape, self.scale.shape[0] as int) {
            Err(e) => Err(e),
            Ok(()) => {
                let cc = bn_cc(x.shape);
                let inner = bn_inner(x.shape);
                Ok(
                    TensorModel {
                        id: 0,
                        shape: x.shape,
                        vals: Seq::new(
                            x.vals.len(),
                            |p: int|
                                bn_norm_val(
                                    x.vals,
                                    self.running_mean.vals,
                                    self.running_var.vals,
                                    self.scale.vals,
                                    self.bias.vals,
                                    self.epsilon,
                                    cc,
                                    inner,
                                    p,
                                ),
                        ),
                        taped: x.taped,
                    },
                )
            },
        }
    }
}

impl BuiltModule for DeviceBatchNorm2D {
    open spec fn v_wf(v: DeviceBatchNorm2DV) -> bool {
        &&& v.scale.wf()
        &&& v.bias.wf()
        &&& v.running_mean.wf()
        &&& v.running_var.wf()
        &&& v.scale.shape.len() == 1
        &&& v.bias.shape == v.scale.shape
        &&& v.running_mean.shape == v.scale.shape
        &&& v.running_var.shape == v.scale.shape
        &&& !v.scale.taped
        &&& !v.bias.taped
        &&& !v.running_mean.taped
        &&& !v.running_var.taped
        &&& 0 <= v.momentum_num <= v.momentum_den
        &&& 1 <= v.momentum_den
    }

    open spec fn tensors_of(v: DeviceBatchNorm2DV) -> Seq<TensorModel> {
        seq![v.scale, v.bias, v.running_mean, v.running_var]
    }

    open spec fn params_of(v: DeviceBatchNorm2DV) -> Seq<TensorModel> {
        seq![v.scale, v.bias]
    }

    open spec fn with_params(v: DeviceBatchNorm2DV, ps: Seq<TensorModel>) -> DeviceBatchNorm2DV {
        if ps.len() == 2 {
            DeviceBatchNorm2DV { scale: ps[0], bias: ps[1], ..v }
        } else {
            v
        }
    }

    proof fn lemma_tensors_wf(v: DeviceBatchNorm2DV) {
    }
}

impl Module for DeviceBatchNorm2D {
    /// The inference forward must never be invoked on a tape-owning value.
    open spec fn fwd_pre(v: DeviceBatchNorm2DV, x: TensorModel) -> bool {
        !x.taped
    }

    /// The training forward must hold the tape.
    open spec fn fwd_mut_pre(v: DeviceBatchNorm2DV, x: TensorModel) -> bool {
        x.taped
    }

    open spec fn fwd_of(v: DeviceBatchNorm2DV, x: TensorModel) -> Result<TensorModel, Error> {
        v.infer_model(x)
    }

    open spec fn fwd_mut_of(v: DeviceBatchNorm2DV, x: TensorModel) -> (
        DeviceBatchNorm2DV,
        Result<TensorModel, Error>,
    ) {
        v.train_model(x)
    }

    proof fn lemma_fwd_wf(v: DeviceBatchNorm2DV, x: TensorModel) {
        if bn_check(x.shape, v.scale.shape[0] as int) is Ok {
            lemma_params_len(v.running_mean);
            lemma_params_len(v.running_var);
            assert(bn_cc(x.shape) == v.scale.shape[0] as int);
        }
    }

    fn try_forward(&self, x: Tensor) -> (r: Result<Tensor, Error>) {
        proof {
            lemma_params_len(self@.scale);
        }
        let (bc, cc, inner, n64) = match bn_prepare(&x, self.scale.shape[0]) {
            Ok(t) => t,
            Err(e) => {
                return Err(e);
            },
        };
        proof {
            lemma_params_len(self@.running_mean);
            lemma_params_len(self@.running_var);
            lemma_params_len(self@.bias);
            if x@.vals.len() > 0 {
                assert(cc >= 1 && inner >= 1) by (nonlinear_arith)
                    requires
                        x@.vals.len() == (bc as int) * (cc as int) * (inner as int),
                        x@.vals.len() > 0,
                        bc >= 0,
                        cc >= 0,
                        inner >= 0,
                ;
            }
        }
        let vals = bn_apply(
            &x.vals,
            &self.running_mean.vals,
            &self.running_var.vals,
            &self.scale.vals,
            &self.bias.vals,
            self.epsilon,
            cc,
            inner,
        );
        let out = Tensor { id: 0, shape: crate::ops::copy_vec(&x.shape), vals, taped: x.taped };
        proof {
            assert(out@ =~= self@.infer_model(x@)->Ok_0);
        }
        Ok(out)
    }

    fn try_forward_mut(&mut self, x: Tensor) -> (r: Result<Tensor, Error>) {
        proof {
            lemma_params_len(old(self)@.scale);
        }
        let (bc, cc, inner, n64) = match bn_prepare(&x, self.scale.shape[0]) {
            Ok(t) => t,
            Err(e) => {
                return Err(e);
            },
        };
        proof {
            lemma_params_len(old(self)@.running_mean);
            lemma_params_len(old(self)@.running_var);
            lemma_params_len(old(self)@.bias);
            if x@.vals.len() > 0 {
                assert(cc >= 1 && inner >= 1) by (nonlinear_arith)
                    requires
                        x@.vals.len() == (bc as int) * (cc as int) * (inner as int),
                        x@.vals.len() > 0,
                        bc >= 0,
                        cc >= 0,
                        inner >= 0,
                ;
            }
        }
        let ghost bcg = bn_bc(x@.shape);
        let ghost innerg = bn_inner(x@.shape);
        // per-channel batch statistics
        let mut means: Vec<i64> = Vec::new();
        let mut vars: Vec<i64> = Vec::new();
        let mut c: usize = 0;
        while c < cc
            invariant
                0 <= c <= cc,
                bc == bcg,
                inner == innerg,
                x@.vals.len() == bc * cc * inner,
                1 <= n64 <= i64::MAX,
                n64 == bcg * innerg,
                means@.len() == c,
                vars@.len() == c,
                forall|d: int|
                    0 <= d < c ==> means@[d] == bn_mean(x@.vals, bcg, cc as int, innerg, d),
                forall|d: int|
                    0 <= d < c ==> vars@[d] == bn_var(x@.vals, bcg, cc as int, innerg, d),
            decreases cc - c,
        {
            let s = crate::norm::sum_channel(&x.vals, bc, cc, inner, c);
            let m = crate::ops::tdiv_of(s, n64 as i64);
            let sq = crate::norm::sum_channel_csq(&x.vals, bc, cc, inner, c, m);
            let v = crate::ops::tdiv_of(sq, n64 as i64);
            means.push(m);
            vars.push(v);
            c += 1;
        }
        // move the running statistics by the momentum
        let num = self.momentum_num;
        let den = self.momentum_den;
        let mut rm2: Vec<i64> = Vec::new();
        let mut rv2: Vec<i64> = Vec::new();
        let mut c2: usize = 0;
        let ghost msg = bn_means(x@.vals, bcg, cc as int, innerg);
        let ghost vsg = bn_vars(x@.vals, bcg, cc as int, innerg);
        while c2 < cc
            invariant
                0 <= c2 <= cc,
                num == old(self)@.momentum_num,
                den == old(self)@.momentum_den,
                den >= 1,
                self@ == old(self)@,
                old(self)@.running_mean.vals.len() == cc,
                old(self)@.running_var.vals.len() == cc,
                means@.len() == cc,
                vars@.len() == cc,
                1 <= n64 <= i64::MAX,
                n64 == bcg * innerg,
                msg == bn_means(x@.vals, bcg, cc as int, innerg),
                vsg == bn_vars(x@.vals, bcg, cc as int, innerg),
                forall|d: int|
                    0 <= d < cc ==> means@[d] == bn_mean(x@.vals, bcg, cc as int, innerg, d),
                forall|d: int|
                    0 <= d < cc ==> vars@[d] == bn_var(x@.vals, bcg, cc as int, innerg, d),
                rm2@.len() == c2,
                rv2@.len() == c2,
                forall|d: int|
                    0 <= d < c2 ==> rm2@[d] == ema_val(
                        old(self)@.running_mean.vals[d],
                        msg[d],
                        num,
                        den,
                    ),
                forall|d: int|
                    0 <= d < c2 ==> rv2@[d] == ema_val(
                        old(self)@.running_var.vals[d],
                        unbiased_val(vsg[d], n64 as i64),
                        num,
                        den,
                    ),
            decreases cc - c2,
        {
            let m = means[c2];
            let old_rm = self.running_mean.vals[c2];
            let e1 = den.wrapping_sub(num).wrapping_mul(old_rm).wrapping_add(
                num.wrapping_mul(m),
            );
            rm2.push(crate::ops::tdiv_of(e1, den));
            let uv = match vars[c2].wrapping_mul(n64 as i64).checked_div(
                (n64 as i64).wrapping_sub(1),
            ) {
                Some(q) => q,
                None => 0,
            };
            let old_rv = self.running_var.vals[c2];
            let e2 = den.wrapping_sub(num).wrapping_mul(old_rv).wrapping_add(
                num.wrapping_mul(uv),
            );
            rv2.push(crate::ops::tdiv_of(e2, den));
            c2 += 1;
        }
        // normalize with the batch statistics
        let vals = bn_apply(
            &x.vals,
            &means,
            &vars,
            &self.scale.vals,
            &self.bias.vals,
            self.epsilon,
            cc,
            inner,
        );
        let rm_t = Tensor {
            id: self.running_mean.id,
            shape: crate::ops::copy_vec(&self.running_mean.shape),
            vals: rm2,
            taped: false,
        };
        let rv_t = Tensor {
            id: self.running_var.id,
            shape: crate::ops::copy_vec(&self.running_var.shape),
            vals: rv2,
            taped: false,
        };
        self.running_mean = rm_t;
        self.running_var = rv_t;
        let out = Tensor { id: 0, shape: crate::ops::copy_vec(&x.shape), vals, taped: x.taped };
        proof {
            let (m2, rr) = old(self)@.train_model(x@);
            assert(means@ =~= msg);
            assert(vars@ =~= vsg);
            assert(out@ =~= rr->Ok_0);
            assert(final(self)@ =~= m2);
        }
        Ok(out)
    }
}

/// A rank-1 tensor's element count is its single axis.
proof fn lemma_params_len(t: TensorModel)
    requires
        t.wf(),
        t.shape.len() == 1,
    ensures
        t.vals.len() == t.shape[0],
{
    assert(t.shape.drop_first() =~= Seq::<usize>::empty());
    assert(numel(Seq::<usize>::empty()) == 1);
    assert(t.vals.len() == t.shape[0] * 1);
}

/// The element count of a rank-3 or rank-4 shape factors into batch, channel
/// and spatial extents.
proof fn lemma_bn_numel(s: Seq<usize>, bc: int, cc: int, inner: int)
    requires
        s.len() == 3 || s.len() == 4,
        bc == bn_bc(s),
        cc == bn_cc(s),
        inner == bn_inner(s),
    ensures
        numel(s) == bc * cc * inner,
{
    if s.len() == 3 {
        assert(s.drop_first() =~= s.subrange(1, 3));
        assert(numel(s) == s[0] * numel(s.subrange(1, 3)));
        assert(s[0] * numel(s.subrange(1, 3)) == bc * cc * inner) by (nonlinear_arith)
            requires
                bc == 1,
                cc == s[0] as int,
                inner == numel(s.subrange(1, 3)),
        ;
    } else {
        assert(s.drop_first() =~= s.subrange(1, 4));
        assert(numel(s) == s[0] * numel(s.subrange(1, 4)));
        assert(s.subrange(1, 4).drop_first() =~= s.subrange(2, 4));
        assert(numel(s.subrange(1, 4)) == s[1] * numel(s.subrange(2, 4)));
        assert(s[0] * ((s[1] as int) * inner) == (s[0] as int) * (s[1] as int) * inner)
            by (nonlinear_arith);
    }
}

/// Checks an input against the module's channel count and decodes its
/// layout, in exactly the order `bn_check` fixes; returns the batch count,
/// channel count, spatial extent and per-channel reduction count.
fn bn_prepare(x: &Tensor, c_mod: usize) -> (r: Result<(usize, usize, usize, u64), Error>)
    requires
        x@.wf(),
    ensures
        r matches Ok((bc, cc, inner, n)) ==> {
            &&& bn_check(x@.shape, c_mod as int) is Ok
            &&& bc as int == bn_bc(x@.shape)
            &&& cc as int == bn_cc(x@.shape)
            &&& cc == c_mod
            &&& inner as int == bn_inner(x@.shape)
            &&& n as int == bn_bc(x@.shape) * bn_inner(x@.shape)
            &&& 1 <= n <= i64::MAX
            &&& x@.vals.len() == (bc as int) * (cc as int) * (inner as int)
        },
        r matches Err(e) ==> bn_check(x@.shape, c_mod as int) == Err::<(), Error>(e),
{
    if x.shape.len() != 3 && x.shape.len() != 4 {
        return Err(Error::Rank);
    }
    let rank = x.shape.len();
    let (bc, cc, h, w) = if rank == 3 {
        (1usize, x.shape[0], x.shape[1], x.shape[2])
    } else {
        (x.shape[0], x.shape[1], x.shape[2], x.shape[3])
    };
    if cc != c_mod {
        return Err(Error::Dim);
    }
    proof {
        if rank == 3 {
            assert(x@.shape.subrange(1, 3) =~= seq![h, w]);
        } else {
            assert(x@.shape.subrange(2, 4) =~= seq![h, w]);
        }
        assert(seq![h, w].drop_first() =~= seq![w]);
        assert(seq![w].drop_first() =~= Seq::<usize>::empty());
        assert(numel(Seq::<usize>::empty()) == 1);
        assert(numel(seq![w]) == w * 1);
        assert(numel(seq![h, w]) == h * (w * 1));
        assert(h * (w * 1) == h * w) by (nonlinear_arith);
        vstd::arithmetic::mul::lemma_mul_nonnegative(h as int, w as int);
    }
    let inner = match h.checked_mul(w) {
        Some(i) => i,
        None => {
            proof {
                assert(bn_inner(x@.shape) > usize::MAX);
            }
            return Err(Error::Alloc);
        },
    };
    proof {
        assert(bc as u128 <= u64::MAX && inner as u128 <= u64::MAX);
        assert((bc as u128) * (inner as u128) <= u128::MAX) by (nonlinear_arith)
            requires
                bc as u128 <= u64::MAX,
                inner as u128 <= u64::MAX,
        ;
    }
    let n128: u128 = (bc as u128) * (inner as u128);
    proof {
        assert((bc as u128) * (inner as u128) == (bc as int) * (inner as int))
            by (nonlinear_arith)
            requires
                bc >= 0,
                inner >= 0,
        ;
    }
    if n128 > (i64::MAX as u128) {
        return Err(Error::Alloc);
    }
    if n128 == 0 {
        return Err(Error::Alloc);
    }
    let n: u64 = n128 as u64;
    proof {
        lemma_bn_numel(x@.shape, bc as int, cc as int, inner as int);
    }
    Ok((bc, cc, inner, n))
}

/// Normalizes every element with the given per-channel statistics and the
/// learned affine parameters.
fn bn_apply(
    xv: &Vec<i64>,
    ms: &Vec<i64>,
    vs: &Vec<i64>,
    sc: &Vec<i64>,
    bs: &Vec<i64>,
    eps: i64,
    cc: usize,
    inner: usize,
) -> (r: Vec<i64>)
    requires
        ms@.len() == cc,
        vs@.len() == cc,
        sc@.len() == cc,
        bs@.len() == cc,
        xv@.len() > 0 ==> cc >= 1 && inner >= 1,
    ensures
        r@.len() == xv@.len(),
        forall|p: int|
            0 <= p < xv@.len() ==> r@[p] == bn_norm_val(
                xv@,
                ms@,
                vs@,
                sc@,
                bs@,
                eps,
                cc as int,
                inner as int,
                p,
            ),
{
    let mut out: Vec<i64> = Vec::new();
    let mut p: usize = 0;
    let len = xv.len();
    while p < len
        invariant
            0 <= p <= len,
            len == xv@.len(),
            len > 0 ==> cc >= 1 && inner >= 1,
            ms@.len() == cc,
            vs@.len() == cc,
            sc@.len() == cc,
            bs@.len() == cc,
            out@.len() == p,
            forall|q: int|
                0 <= q < p ==> out@[q] == bn_norm_val(
                    xv@,
                    ms@,
                    vs@,
                    sc@,
                    bs@,
                    eps,
                    cc as int,
                    inner as int,
                    q,
                ),
        decreases len - p,
    {
        let c = (p / inner) % cc;
        let sd = crate::norm::std_of(vs[c].wrapping_add(eps));
        let v = crate::ops::tdiv_of(xv[p].wrapping_sub(ms[c]), sd).wrapping_mul(sc[c])
            .wrapping_add(bs[c]);
        out.push(v);
        p += 1;
    }
    out
}

impl BuildOnDevice for BatchNorm2D {
    type Built = DeviceBatchNorm2D;

    open spec fn c_wf(&self) -> bool {
        true
    }

    open spec fn can_alloc(&self) -> bool {
        crate::tensor::shape_fits(seq![self.0])
    }

    open spec fn n_ids(&self) -> nat {
        4
    }

    open spec fn built_model(&self, id0: u64) -> DeviceBatchNorm2DV {
        DeviceBatchNorm2DV {
            scale: TensorModel::filled(id0, seq![self.0], 1),
            bias: TensorModel::filled((id0 + 1) as u64, seq![self.0], 0),
            running_mean: TensorModel::filled((id0 + 2) as u64, seq![self.0], 0),
            running_var: TensorModel::filled((id0 + 3) as u64, seq![self.0], 1),
            epsilon: 1,
            momentum_num: 1,
            momentum_den: 10,
        }
    }

    proof fn lemma_build_deterministic(&self, a: u64, b: u64) {
        crate::tensor::lemma_numel_nonneg(seq![self.0]);
        assert(shapes_of(Self::Built::tensors_of(self.built_model(a))) =~= shapes_of(
            Self::Built::tensors_of(self.built_model(b)),
        ));
        assert(shapes_of(Self::Built::params_of(self.built_model(a))) =~= shapes_of(
            Self::Built::params_of(self.built_model(b)),
        ));
    }

    fn try_build_on_device(&self, dev: &mut Device) -> (r: Result<DeviceBatchNorm2D, Error>) {
        let mut shape: Vec<usize> = Vec::new();
        shape.push(self.0);
        proof {
            assert(shape@ =~= seq![self.0]);
        }
        let scale = match dev.try_ones(&shape) {
            Ok(t) => t,
            Err(e) => {
                return Err(e);
            },
        };
        let bias = match dev.try_zeros(&shape) {
            Ok(t) => t,
            Err(e) => {
                return Err(e);
            },
        };
        let running_mean = match dev.try_zeros(&shape) {
            Ok(t) => t,
            Err(e) => {
                return Err(e);
            },
        };
        let running_var = match dev.try_ones(&shape) {
            Ok(t) => t,
            Err(e) => {
                return Err(e);
            },
        };
        let built = DeviceBatchNorm2D {
            scale,
            bias,
            running_mean,
            running_var,
            epsilon: 1,
            momentum_num: 1,
            momentum_den: 10,
        };
        proof {
            assert(built@ =~= self.built_model(old(dev).next_id));
        }
        Ok(built)
    }
}

impl ResetParams for DeviceBatchNorm2D {
    /// Scale and running variance are refilled with ones, bias and running
    /// mean with zeros; frames and the scalars survive.
    open spec fn reset_rel(pre: DeviceBatchNorm2DV, post: DeviceBatchNorm2DV) -> bool {
        &&& post.scale == TensorModel::filled(pre.scale.id, pre.scale.shape, 1)
        &&& post.bias == TensorModel::filled(pre.bias.id, pre.bias.shape, 0)
        &&& post.running_mean == TensorModel::filled(
            pre.running_mean.id,
            pre.running_mean.shape,
            0,
        )
        &&& post.running_var == TensorModel::filled(pre.running_var.id, pre.running_var.shape, 1)
        &&& post.epsilon == pre.epsilon
        &&& post.momentum_num == pre.momentum_num
        &&& post.momentum_den == pre.momentum_den
    }

    fn try_reset_params(&mut self, dev: &mut Device) -> (r: Result<(), Error>) {
        crate::tensor::fill_const(&mut self.scale, 1);
        crate::tensor::zero_fill(&mut self.bias);
        crate::tensor::zero_fill(&mut self.running_mean);
        crate::tensor::fill_const(&mut self.running_var, 1);
        Ok(())
    }
}

impl UpdateParams for DeviceBatchNorm2D {
    fn try_update_params<O: Optimizer>(
        &mut self,
        opt: &mut O,
        grads: &Gradients,
        missing: &mut Vec<u64>,
    ) -> (r: Result<(), Error>) {
        proof {
            assert(Self::params_of(old(self)@) =~= seq![old(self)@.scale] + seq![
                old(self)@.bias,
            ]);
            crate::base::lemma_grads_match_split(
                seq![old(self)@.scale],
                seq![old(self)@.bias],
                grads@,
            );
            assert(seq![old(self)@.scale][0] == old(self)@.scale);
            assert(seq![old(self)@.bias][0] == old(self)@.bias);
        }
        let r1 = opt.update_tensor(&mut self.scale, grads, missing);
        match r1 {
            Ok(()) => {},
            Err(e) => {
                proof {
                    assert(false);
                }
                return Err(e);
            },
        }
        let r2 = opt.update_tensor(&mut self.bias, grads, missing);
        proof {
            let g = old(self)@.scale;
            let b = old(self)@.bias;
            crate::base::lemma_upd_fold_concat::<O>(
                old(opt)@,
                seq![g],
                seq![b],
                grads@,
                old(missing)@,
            );
            crate::base::lemma_upd_fold_one::<O>(old(opt)@, g, grads@, old(missing)@);
            let (o1, pa2, m1) = upd_fold::<O>(old(opt)@, seq![g], grads@, old(missing)@);
            crate::base::lemma_upd_fold_one::<O>(o1, b, grads@, m1);
            if grads@.contains_key(g.id) {
                O::lemma_step_frame(old(opt)@, g, grads@[g.id]);
            }
            if grads@.contains_key(b.id) {
                O::lemma_step_frame(o1, b, grads@[b.id]);
            }
            let (o2, pb2, m2) = upd_fold::<O>(o1, seq![b], grads@, m1);
            assert(final(self)@ =~= Self::with_params(old(self)@, pa2 + pb2));
        }
        r2
    }
}

impl ZeroGrads for DeviceBatchNorm2D {
    fn try_zero_grads(&self, grads: &mut Gradients) -> (r: Result<(), Error>) {
        grads.set_zero(&self.scale);
        grads.set_zero(&self.bias);
        proof {
            assert(Self::params_of(self@) =~= seq![self@.scale] + seq![self@.bias]);
            crate::base::lemma_zg_fold_concat(seq![self@.scale], seq![self@.bias], old(grads)@);
            crate::base::lemma_zg_fold_one(self@.scale, old(grads)@);
            crate::base::lemma_zg_fold_one(
                self@.bias,
                crate::base::zg_fold(seq![self@.scale], old(grads)@),
            );
        }
        Ok(())
    }
}


impl crate::serialize::SaveSafeTensors for DeviceBatchNorm2D {
    /// Emits the two trainable leaves and the two running statistics, so a
    /// reloaded tree normalizes as the saved one did.
    open spec fn recs_of(v: DeviceBatchNorm2DV, loc: Seq<char>) -> Seq<
        crate::serialize::RecordModel,
    > {
        seq![
            crate::serialize::rec_of_tensor(loc + "scale"@, v.scale),
            crate::serialize::rec_of_tensor(loc + "bias"@, v.bias),
            crate::serialize::rec_of_tensor(loc + "running_mean"@, v.running_mean),
            crate::serialize::rec_of_tensor(loc + "running_var"@, v.running_var),
        ]
    }

    open spec fn bytes_fit(v: DeviceBatchNorm2DV) -> bool {
        &&& v.scale.vals.len() * 8 <= usize::MAX
        &&& v.bias.vals.len() * 8 <= usize::MAX
        &&& v.running_mean.vals.len() * 8 <= usize::MAX
        &&& v.running_var.vals.len() * 8 <= usize::MAX
    }

    fn write_safetensors(&self, loc: &str, out: &mut Vec<crate::serialize::Record>) {
        crate::serialize::write_leaf(&self.scale, loc, "scale", out);
        crate::serialize::write_leaf(&self.bias, loc, "bias", out);
        crate::serialize::write_leaf(&self.running_mean, loc, "running_mean", out);
        crate::serialize::write_leaf(&self.running_var, loc, "running_var", out);
        proof {
            assert(crate::vecs::views_of(final(out)@) =~= crate::vecs::views_of(old(out)@)
                + Self::recs_of(self@, loc@));
        }
    }
}

impl crate::serialize::LoadSafeTensors for DeviceBatchNorm2D {
    open spec fn load_model(
        v: DeviceBatchNorm2DV,
        recs: Seq<crate::serialize::RecordModel>,
        loc: Seq<char>,
    ) -> (DeviceBatchNorm2DV, Result<(), crate::error::LoadError>) {
        let (s2, r1) = crate::serialize::load_leaf(v.scale, recs, loc + "scale"@);
        match r1 {
            Err(e) => (DeviceBatchNorm2DV { scale: s2, ..v }, Err(e)),
            Ok(()) => {
                let (b2, r2) = crate::serialize::load_leaf(v.bias, recs, loc + "bias"@);
                match r2 {
                    Err(e) => (DeviceBatchNorm2DV { scale: s2, bias: b2, ..v }, Err(e)),
                    Ok(()) => {
                        let (m2, r3) = crate::serialize::load_leaf(
                            v.running_mean,
                            recs,
                            loc + "running_mean"@,
                        );
                        match r3 {
                            Err(e) => (
                                DeviceBatchNorm2DV { scale: s2, bias: b2, running_mean: m2, ..v },
                                Err(e),
                            ),
                            Ok(()) => {
                                let (v2, r4) = crate::serialize::load_leaf(
                                    v.running_var,
                                    recs,
                                    loc + "running_var"@,
                                );
                                (
                                    DeviceBatchNorm2DV {
                                        scale: s2,
                                        bias: b2,
                                        running_mean: m2,
                                        running_var: v2,
                                        ..v
                                    },
                                    r4,
                                )
                            },
                        }
                    },
                }
            },
        }
    }

    fn read_safetensors(&mut self, loc: &str, recs: &Vec<crate::serialize::Record>) -> (r: Result<
        (),
        crate::error::LoadError,
    >) {
        let p1 = crate::serialize::join_path(loc, "scale");
        let r1 = crate::serialize::read_leaf(&mut self.scale, recs, &p1);
        match r1 {
            Ok(()) => {},
            Err(e) => {
                proof {
                    assert(final(self)@ =~= Self::load_model(
                        old(self)@,
                        crate::vecs::views_of(recs@),
                        loc@,
                    ).0);
                }
                return Err(e);
            },
        }
        let p2 = crate::serialize::join_path(loc, "bias");
        let r2 = crate::serialize::read_leaf(&mut self.bias, recs, &p2);
        match r2 {
            Ok(()) => {},
            Err(e) => {
                proof {
                    assert(final(self)@ =~= Self::load_model(
                        old(self)@,
                        crate::vecs::views_of(recs@),
                        loc@,
                    ).0);
                }
                return Err(e);
            },
        }
        let p3 = crate::serialize::join_path(loc, "running_mean");
        let r3 = crate::serialize::read_leaf(&mut self.running_mean, recs, &p3);
        match r3 {
            Ok(()) => {},
            Err(e) => {
                proof {
                    assert(final(self)@ =~= Self::load_model(
                        old(self)@,
                        crate::vecs::views_of(recs@),
                        loc@,
                    ).0);
                }
                return Err(e);
            },
        }
        let p4 = crate::serialize::join_path(loc, "running_var");
        let r4 = crate::serialize::read_leaf(&mut self.running_var, recs, &p4);
        proof {
            assert(final(self)@ =~= Self::load_model(
                old(self)@,
                crate::vecs::views_of(recs@),
                loc@,
            ).0);
        }
        r4
    }
}
} // verus!

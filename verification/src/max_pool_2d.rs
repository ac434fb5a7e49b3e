use vstd::arithmetic::div_mod::lemma_fundamental_div_mod_converse;
use vstd::arithmetic::mul::{
    lemma_mul_inequality, lemma_mul_is_associative, lemma_mul_is_commutative,
    lemma_mul_is_distributive_add, lemma_mul_nonnegative,
};
use vstd::prelude::*;

use crate::base::{BuildOnDevice, BuiltModule, Module};
use crate::device::Device;
use crate::error::Error;
use crate::tensor::{numel, Tensor, TensorModel};

verus! {

broadcast use vstd::std_specs::vec::group_vec_axioms;

/// The running maximum over the first `t` cells of a pooling window anchored
/// at output position `(y, x)` of channel `c`. Cells outside the input act as
/// unreachable minus-infinity padding; an all-outside window yields the
/// smallest value.
pub open spec fn pool_fold(
    xv: Seq<i64>,
    hh: int,
    ww: int,
    k: int,
    s: int,
    p: int,
    d: int,
    c: int,
    y: int,
    x: int,
    t: int,
) -> i64
    decreases t,
{
    if t <= 0 {
        i64::MIN
    } else {
        let prev = pool_fold(xv, hh, ww, k, s, p, d, c, y, x, t - 1);
        let iy = y * s + ((t - 1) / k) * d - p;
        let ix = x * s + ((t - 1) % k) * d - p;
        if 0 <= iy < hh && 0 <= ix < ww {
            let v = xv[(c * hh + iy) * ww + ix];
            if v > prev {
                v
            } else {
                prev
            }
        } else {
            prev
        }
    }
}

/// The pooled spatial extent for one axis.
pub open spec fn pool_out_dim(n: int, k: int, s: int, p: int, d: int) -> int {
    (n + 2 * p - d * (k - 1) - 1) / s + 1
}

/// Max pooling of a rank-3 `(channel, height, width)` input with a square
/// window: each output element is the maximum of its window, with
/// minus-infinity padding outside the input.
pub open spec fn max_pool_model(x: TensorModel, k: usize, s: usize, p: usize, d: usize) -> Result<
    TensorModel,
    Error,
> {
    let hh = if x.shape.len() == 3 {
        x.shape[1] as int
    } else {
        0
    };
    let ww = if x.shape.len() == 3 {
        x.shape[2] as int
    } else {
        0
    };
    if x.shape.len() != 3 {
        Err(Error::Rank)
    } else if k < 1 || s < 1 {
        Err(Error::Dim)
    } else if hh + 2 * p > usize::MAX || ww + 2 * p > usize::MAX || d * (k - 1) + 1 > usize::MAX
        || k * k > usize::MAX {
        Err(Error::Alloc)
    } else if hh + 2 * p < d * (k - 1) + 1 || ww + 2 * p < d * (k - 1) + 1 {
        Err(Error::Dim)
    } else {
        let c_count = x.shape[0] as int;
        let oh = pool_out_dim(hh, k as int, s as int, p as int, d as int);
        let ow = pool_out_dim(ww, k as int, s as int, p as int, d as int);
        if !crate::tensor::shape_fits(seq![x.shape[0], oh as usize, ow as usize]) {
            Err(Error::Alloc)
        } else {
            Ok(
                TensorModel {
                    id: 0,
                    shape: seq![x.shape[0], oh as usize, ow as usize],
                    vals: Seq::new(
                        (c_count * oh * ow) as nat,
                        |q: int|
                            pool_fold(
                                x.vals,
                                hh,
                                ww,
                                k as int,
                                s as int,
                                p as int,
                                d as int,
                                q / (oh * ow),
                                (q / ow) % oh,
                                q % ow,
                                (k * k) as int,
                            ),
                    ),
                    taped: x.taped,
                },
            )
        }
    }
}

/// Max pooling with hyperparameters fixed at compile time; it pools exactly
/// as its run-time counterpart with the same window, stride, padding and
/// dilation does.
pub struct ConstMaxPool2D<const K: usize, const S: usize, const P: usize, const L: usize>;

impl<const K: usize, const S: usize, const P: usize, const L: usize> ConstMaxPool2D<K, S, P, L> {
    /// The run-time form of this pooling configuration.
    pub fn as_dyn(&self) -> (r: DynMaxPool2D)
        ensures
            r == (DynMaxPool2D { kernel_size: K, stride: S, padding: P, dilation: L }),
    {
        DynMaxPool2D { kernel_size: K, stride: S, padding: P, dilation: L }
    }

    /// Forward through the window-max kernel with the compile-time
    /// hyperparameters.
    pub fn try_forward(&self, x: Tensor) -> (r: Result<Tensor, Error>)
        requires
            x@.wf(),
        ensures
            crate::ops::res_model(r) == max_pool_model(x@, K, S, P, L),
    {
        max_pool_fwd(&x, K, S, P, L)
    }
}

/// Max pooling with hyperparameters chosen at run time: window size, stride,
/// padding and dilation. A parameterless functional module.
#[derive(Clone, Copy, Debug, PartialEq, Eq, Structural, Default)]
pub struct DynMaxPool2D {
    pub kernel_size: usize,
    pub stride: usize,
    pub padding: usize,
    pub dilation: usize,
}

impl View for DynMaxPool2D {
    type V = DynMaxPool2D;

    open spec fn view(&self) -> DynMaxPool2D {
        *self
    }
}



impl BuiltModule for DynMaxPool2D {
    open spec fn v_wf(v: DynMaxPool2D) -> bool {
        true
    }

    open spec fn tensors_of(v: DynMaxPool2D) -> Seq<TensorModel> {
        Seq::empty()
    }

    open spec fn params_of(v: DynMaxPool2D) -> Seq<TensorModel> {
        Seq::empty()
    }

    open spec fn with_params(v: DynMaxPool2D, ps: Seq<TensorModel>) -> DynMaxPool2D {
        v
    }

    proof fn lemma_tensors_wf(v: DynMaxPool2D) {
    }
}



impl Module for DynMaxPool2D {
    open spec fn fwd_pre(v: DynMaxPool2D, x: TensorModel) -> bool {
        true
    }

    open spec fn fwd_mut_pre(v: DynMaxPool2D, x: TensorModel) -> bool {
        true
    }

    open spec fn fwd_of(v: DynMaxPool2D, x: TensorModel) -> Result<TensorModel, Error> {
        max_pool_model(x, v.kernel_size, v.stride, v.padding, v.dilation)
    }

    open spec fn fwd_mut_of(v: DynMaxPool2D, x: TensorModel) -> (
        DynMaxPool2D,
        Result<TensorModel, Error>,
    ) {
        (v, max_pool_model(x, v.kernel_size, v.stride, v.padding, v.dilation))
    }

    proof fn lemma_fwd_wf(v: DynMaxPool2D, x: TensorModel) {
        lemma_max_pool_wf(x, v.kernel_size, v.stride, v.padding, v.dilation);
    }

    fn try_forward(&self, x: Tensor) -> (r: Result<Tensor, Error>) {
        max_pool_fwd(&x, self.kernel_size, self.stride, self.padding, self.dilation)
    }

    fn try_forward_mut(&mut self, x: Tensor) -> (r: Result<Tensor, Error>) {
        max_pool_fwd(&x, self.kernel_size, self.stride, self.padding, self.dilation)
    }
}



/// A successful pooling result is a well-formed tensor.
proof fn lemma_max_pool_wf(x: TensorModel, k: usize, s: usize, p: usize, d: usize)
    ensures
        max_pool_model(x, k, s, p, d) matches Ok(y) ==> y.wf(),
{
    if max_pool_model(x, k, s, p, d) is Ok {
        let y = max_pool_model(x, k, s, p, d)->Ok_0;
        lemma_numel_three(y.shape);
        crate::tensor::lemma_numel_nonneg(y.shape);
    }
}

/// The element count of a rank-3 shape is the product of its axes.
pub proof fn lemma_numel_three(s: Seq<usize>)
    requires
        s.len() == 3,
    ensures
        numel(s) == (s[0] as int) * (s[1] as int) * (s[2] as int),
{
    assert(s.drop_first() =~= seq![s[1], s[2]]);
    assert(seq![s[1], s[2]].drop_first() =~= seq![s[2]]);
    assert(seq![s[2]].drop_first() =~= Seq::<usize>::empty());
    assert(numel(Seq::<usize>::empty()) == 1);
    assert(numel(seq![s[2]]) == (s[2] as int) * 1);
    assert(numel(seq![s[1], s[2]]) == (s[1] as int) * ((s[2] as int) * 1));
    assert((s[0] as int) * ((s[1] as int) * ((s[2] as int) * 1)) == (s[0] as int) * (s[1] as int)
        * (s[2] as int)) by (nonlinear_arith);
}

/// The maximum of one pooling window.
fn max_window(
    xv: &Vec<i64>,
    c_count: usize,
    hh: usize,
    ww: usize,
    k: usize,
    s: usize,
    p: usize,
    d: usize,
    c: usize,
    y: usize,
    x: usize,
) -> (r: i64)
    requires
        c < c_count,
        xv@.len() == c_count * hh * ww,
        k >= 1,
        k * k <= usize::MAX,
        y * s + (k - 1) * d <= usize::MAX,
        x * s + (k - 1) * d <= usize::MAX,
    ensures
        r == pool_fold(
            xv@,
            hh as int,
            ww as int,
            k as int,
            s as int,
            p as int,
            d as int,
            c as int,
            y as int,
            x as int,
            (k * k) as int,
        ),
{
    let mut acc: i64 = i64::MIN;
    let mut ky: usize = 0;
    let mut t: usize = 0;
    while ky < k
        invariant
            0 <= ky <= k,
            t == ky * k,
            c < c_count,
            xv@.len() == c_count * hh * ww,
            k >= 1,
            k * k <= usize::MAX,
            y * s + (k - 1) * d <= usize::MAX,
            x * s + (k - 1) * d <= usize::MAX,
            acc == pool_fold(
                xv@,
                hh as int,
                ww as int,
                k as int,
                s as int,
                p as int,
                d as int,
                c as int,
                y as int,
                x as int,
                t as int,
            ),
        decreases k - ky,
    {
        proof {
            lemma_mul_inequality(ky + 1, k as int, k as int);
            lemma_mul_is_distributive_add(k as int, ky as int, 1);
            lemma_mul_is_commutative(k as int, ky as int);
            lemma_mul_is_commutative(k as int, ky + 1);
            lemma_mul_nonnegative(ky as int, k as int);
        }
        let mut kx: usize = 0;
        while kx < k
            invariant
                0 <= kx <= k,
                0 <= ky < k,
                t == ky * k + kx,
                ky * k + k == (ky + 1) * k,
                (ky + 1) * k <= k * k,
                ky * k >= 0,
                c < c_count,
                xv@.len() == c_count * hh * ww,
                k >= 1,
                k * k <= usize::MAX,
                y * s + (k - 1) * d <= usize::MAX,
                x * s + (k - 1) * d <= usize::MAX,
                acc == pool_fold(
                    xv@,
                    hh as int,
                    ww as int,
                    k as int,
                    s as int,
                    p as int,
                    d as int,
                    c as int,
                    y as int,
                    x as int,
                    t as int,
                ),
            decreases k - kx,
        {
            proof {
                lemma_fundamental_div_mod_converse(t as int, k as int, ky as int, kx as int);
                lemma_mul_inequality(ky as int, k - 1, d as int);
                lemma_mul_inequality(kx as int, k - 1, d as int);
                lemma_mul_is_commutative(d as int, ky as int);
                lemma_mul_is_commutative(d as int, kx as int);
                lemma_mul_is_commutative(d as int, k - 1);
                lemma_mul_nonnegative(ky as int, d as int);
                lemma_mul_nonnegative(kx as int, d as int);
            }
            let vy = y * s + ky * d;
            let vx = x * s + kx * d;
            if vy >= p && vy - p < hh && vx >= p && vx - p < ww {
                let iy = vy - p;
                let ix = vx - p;
                proof {
                    vstd::std_specs::vec::axiom_spec_len(xv);
                    lemma_mul_nonnegative(c as int, hh as int);
                    assert((c * hh + iy) * ww + ix < c_count * hh * ww) by (nonlinear_arith)
                        requires
                            0 <= c < c_count,
                            0 <= iy < hh,
                            0 <= ix < ww,
                    ;
                    assert((c * (hh as int) + iy) * ww >= 0) by (nonlinear_arith)
                        requires
                            c >= 0,
                            hh >= 0,
                            iy >= 0,
                            ww >= 0,
                    ;
                    assert(c * (hh as int) >= 0) by (nonlinear_arith)
                        requires
                            c >= 0,
                            hh >= 0,
                    ;
                    assert(c * (hh as int) + iy <= (c * (hh as int) + iy) * ww)
                        by (nonlinear_arith)
                        requires
                            c * (hh as int) + iy >= 0,
                            ww >= 1,
                    ;
                }
                let idx = (c * hh + iy) * ww + ix;
                let v = xv[idx];
                if v > acc {
                    acc = v;
                }
            }
            t += 1;
            kx += 1;
        }
        ky += 1;
    }
    acc
}

/// Executes the max-pooling forward pass over a rank-3 input.
fn max_pool_fwd(x: &Tensor, k: usize, s: usize, p: usize, d: usize) -> (r: Result<Tensor, Error>)
    requires
        x@.wf(),
    ensures
        crate::ops::res_model(r) == max_pool_model(x@, k, s, p, d),
        r matches Ok(t) ==> t@.wf(),
{
    if x.shape.len() != 3 {
        return Err(Error::Rank);
    }
    if k < 1 || s < 1 {
        return Err(Error::Dim);
    }
    let c_count = x.shape[0];
    let hh = x.shape[1];
    let ww = x.shape[2];
    let reach = match d.checked_mul(k - 1) {
        Some(v) => match v.checked_add(1) {
            Some(v1) => v1,
            None => {
                return Err(Error::Alloc);
            },
        },
        None => {
            return Err(Error::Alloc);
        },
    };
    if k.checked_mul(k).is_none() {
        return Err(Error::Alloc);
    }
    let h_ext = match p.checked_mul(2) {
        Some(p2) => match hh.checked_add(p2) {
            Some(v) => v,
            None => {
                return Err(Error::Alloc);
            },
        },
        None => {
            return Err(Error::Alloc);
        },
    };
    let w_ext = match p.checked_mul(2) {
        Some(p2) => match ww.checked_add(p2) {
            Some(v) => v,
            None => {
                return Err(Error::Alloc);
            },
        },
        None => {
            return Err(Error::Alloc);
        },
    };
    if h_ext < reach || w_ext < reach {
        return Err(Error::Dim);
    }
    let oh = (h_ext - reach) / s + 1;
    let ow = (w_ext - reach) / s + 1;
    proof {
        assert(oh as int == pool_out_dim(hh as int, k as int, s as int, p as int, d as int));
        assert(ow as int == pool_out_dim(ww as int, k as int, s as int, p as int, d as int));
        // each window anchor stays within the padded extent
        vstd::arithmetic::div_mod::lemma_fundamental_div_mod((h_ext - reach) as int, s as int);
        vstd::arithmetic::div_mod::lemma_fundamental_div_mod((w_ext - reach) as int, s as int);
        vstd::arithmetic::div_mod::lemma_div_is_ordered_by_denominator(
            (h_ext - reach) as int,
            1,
            s as int,
        );
        assert((oh - 1) * s <= h_ext - reach) by {
            let qd = ((h_ext - reach) as int) / (s as int);
            assert((h_ext - reach) as int == (s as int) * qd + ((h_ext - reach) as int) % (
            s as int));
            lemma_mul_is_commutative(s as int, qd);
        }
        assert((ow - 1) * s <= w_ext - reach) by {
            let qd = ((w_ext - reach) as int) / (s as int);
            assert((w_ext - reach) as int == (s as int) * qd + ((w_ext - reach) as int) % (
            s as int));
            lemma_mul_is_commutative(s as int, qd);
        }
        lemma_mul_is_commutative(d as int, k - 1);
        assert((oh - 1) * s + (k - 1) * d <= usize::MAX);
        assert((ow - 1) * s + (k - 1) * d <= usize::MAX);
    }
    let mut out_shape: Vec<usize> = Vec::new();
    out_shape.push(c_count);
    out_shape.push(oh);
    out_shape.push(ow);
    proof {
        assert(out_shape@ =~= seq![c_count, oh, ow]);
    }
    let n_out = match crate::tensor::numel_checked(&out_shape) {
        Some(n) => n,
        None => {
            return Err(Error::Alloc);
        },
    };
    let ghost model = max_pool_model(x@, k, s, p, d)->Ok_0;
    let ghost model_at = |q: int|
        pool_fold(
            x@.vals,
            hh as int,
            ww as int,
            k as int,
            s as int,
            p as int,
            d as int,
            q / ((oh as int) * (ow as int)),
            (q / (ow as int)) % (oh as int),
            q % (ow as int),
            (k * k) as int,
        );
    proof {
        lemma_numel_three(out_shape@);
        lemma_mul_is_associative(c_count as int, oh as int, ow as int);
        assert(model.vals.len() == numel(out_shape@));
        assert forall|q: int| 0 <= q < model.vals.len() implies model.vals[q] == model_at(q) by {
            assert(model.vals[q] == pool_fold(
                x@.vals,
                hh as int,
                ww as int,
                k as int,
                s as int,
                p as int,
                d as int,
                q / ((oh as int) * (ow as int)),
                (q / (ow as int)) % (oh as int),
                q % (ow as int),
                (k * k) as int,
            ));
        }
        lemma_numel_three(x@.shape);
        vstd::std_specs::vec::axiom_spec_len(&x.vals);
    }
    let mut vals: Vec<i64> = Vec::new();
    let mut q: usize = 0;
    let mut c: usize = 0;
    proof {
        assert(0int * ((oh as int) * (ow as int)) == 0) by (nonlinear_arith);
    }
    while c < c_count
        invariant
            0 <= c <= c_count,
            q == c * ((oh as int) * (ow as int)),
            q == vals@.len(),
            oh >= 1,
            ow >= 1,
            k >= 1,
            s >= 1,
            k * k <= usize::MAX,
            (oh - 1) * s + (k - 1) * d <= usize::MAX,
            (ow - 1) * s + (k - 1) * d <= usize::MAX,
            x@.vals.len() == c_count * hh * ww,
            n_out == numel(seq![c_count, oh, ow]),
            n_out == (c_count as int) * ((oh as int) * (ow as int)),
            model.vals.len() == n_out,
            forall|j: int| 0 <= j < n_out ==> model.vals[j] == model_at(j),
            model_at == (|j: int|
                pool_fold(
                    x@.vals,
                    hh as int,
                    ww as int,
                    k as int,
                    s as int,
                    p as int,
                    d as int,
                    j / ((oh as int) * (ow as int)),
                    (j / (ow as int)) % (oh as int),
                    j % (ow as int),
                    (k * k) as int,
                )),
            forall|j: int| 0 <= j < q ==> vals@[j] == model.vals[j],
        decreases c_count - c,
    {
        proof {
            lemma_mul_inequality(c + 1, c_count as int, (oh as int) * (ow as int));
            lemma_mul_is_distributive_add((oh as int) * (ow as int), c as int, 1);
            lemma_mul_is_commutative((oh as int) * (ow as int), c as int);
            lemma_mul_is_commutative((oh as int) * (ow as int), c + 1);
            lemma_mul_nonnegative(c as int, (oh as int) * (ow as int));
        }
        let mut y: usize = 0;
        while y < oh
            invariant
                0 <= y <= oh,
                0 <= c < c_count,
                q == c * ((oh as int) * (ow as int)) + y * (ow as int),
                q == vals@.len(),
                oh >= 1,
                ow >= 1,
                k >= 1,
                s >= 1,
                k * k <= usize::MAX,
                (oh - 1) * s + (k - 1) * d <= usize::MAX,
                (ow - 1) * s + (k - 1) * d <= usize::MAX,
                x@.vals.len() == c_count * hh * ww,
                n_out == (c_count as int) * ((oh as int) * (ow as int)),
                (c + 1) * ((oh as int) * (ow as int)) <= n_out,
                c * ((oh as int) * (ow as int)) + ((oh as int) * (ow as int)) == (c + 1) * ((
                oh as int) * (ow as int)),
                c * ((oh as int) * (ow as int)) >= 0,
                model.vals.len() == n_out,
                forall|j: int| 0 <= j < n_out ==> model.vals[j] == model_at(j),
                model_at == (|j: int|
                    pool_fold(
                        x@.vals,
                        hh as int,
                        ww as int,
                        k as int,
                        s as int,
                        p as int,
                        d as int,
                        j / ((oh as int) * (ow as int)),
                        (j / (ow as int)) % (oh as int),
                        j % (ow as int),
                        (k * k) as int,
                    )),
                forall|j: int| 0 <= j < q ==> vals@[j] == model.vals[j],
            decreases oh - y,
        {
            proof {
                lemma_mul_inequality(y + 1, oh as int, ow as int);
                lemma_mul_is_distributive_add(ow as int, y as int, 1);
                lemma_mul_is_commutative(ow as int, y as int);
                lemma_mul_is_commutative(ow as int, y + 1);
                lemma_mul_nonnegative(y as int, ow as int);
                lemma_mul_inequality(y as int, oh - 1, s as int);
                lemma_mul_is_commutative(s as int, y as int);
                lemma_mul_is_commutative(s as int, oh - 1);
            }
            let mut xx: usize = 0;
            while xx < ow
                invariant
                    0 <= xx <= ow,
                    0 <= y < oh,
                    0 <= c < c_count,
                    q == c * ((oh as int) * (ow as int)) + y * (ow as int) + xx,
                    q == vals@.len(),
                    oh >= 1,
                    ow >= 1,
                    k >= 1,
                    s >= 1,
                    k * k <= usize::MAX,
                    (oh - 1) * s + (k - 1) * d <= usize::MAX,
                    (ow - 1) * s + (k - 1) * d <= usize::MAX,
                    y * s + (k - 1) * d <= usize::MAX,
                    y * (ow as int) + ow == (y + 1) * (ow as int),
                    (y + 1) * (ow as int) <= (oh as int) * (ow as int),
                    y * (ow as int) >= 0,
                    x@.vals.len() == c_count * hh * ww,
                    n_out == (c_count as int) * ((oh as int) * (ow as int)),
                    (c + 1) * ((oh as int) * (ow as int)) <= n_out,
                    c * ((oh as int) * (ow as int)) + ((oh as int) * (ow as int)) == (c + 1) * ((
                    oh as int) * (ow as int)),
                    c * ((oh as int) * (ow as int)) >= 0,
                    model.vals.len() == n_out,
                    forall|j: int| 0 <= j < n_out ==> model.vals[j] == model_at(j),
                    model_at == (|j: int|
                        pool_fold(
                            x@.vals,
                            hh as int,
                            ww as int,
                            k as int,
                            s as int,
                            p as int,
                            d as int,
                            j / ((oh as int) * (ow as int)),
                            (j / (ow as int)) % (oh as int),
                            j % (ow as int),
                            (k * k) as int,
                        )),
                    forall|j: int| 0 <= j < q ==> vals@[j] == model.vals[j],
                decreases ow - xx,
            {
                proof {
                    lemma_mul_inequality(xx as int, ow - 1, s as int);
                    lemma_mul_is_commutative(s as int, xx as int);
                    lemma_mul_is_commutative(s as int, ow - 1);
                    lemma_mul_nonnegative(xx as int, s as int);
                    lemma_mul_nonnegative(y as int, s as int);
                    // the flat output position decomposes into (c, y, x)
                    let ohow = (oh as int) * (ow as int);
                    lemma_fundamental_div_mod_converse(
                        (y * (ow as int) + xx) as int,
                        ow as int,
                        y as int,
                        xx as int,
                    );
                    assert(y * (ow as int) + xx < ohow);
                    lemma_fundamental_div_mod_converse(
                        q as int,
                        ohow,
                        c as int,
                        y * (ow as int) + xx,
                    );
                    assert((q as int) / (ow as int) == c * (oh as int) + y && (q as int) % (
                    ow as int) == xx) by {
                        lemma_mul_is_associative(c as int, oh as int, ow as int);
                        lemma_mul_is_commutative(ow as int, y as int);
                        lemma_mul_is_distributive_add(
                            ow as int,
                            c * (oh as int),
                            y as int,
                        );
                        lemma_mul_is_commutative(ow as int, c * (oh as int));
                        lemma_mul_is_commutative(ow as int, c * (oh as int) + y);
                        lemma_fundamental_div_mod_converse(
                            q as int,
                            ow as int,
                            c * (oh as int) + y,
                            xx as int,
                        );
                    }
                    lemma_fundamental_div_mod_converse(
                        c * (oh as int) + y,
                        oh as int,
                        c as int,
                        y as int,
                    );
                    assert(((q as int) / (ow as int)) % (oh as int) == y) by {
                        lemma_mul_is_commutative(oh as int, c as int);
                        lemma_fundamental_div_mod_converse(
                            c * (oh as int) + y,
                            oh as int,
                            c as int,
                            y as int,
                        );
                    }
                }
                let v = max_window(&x.vals, c_count, hh, ww, k, s, p, d, c, y, xx);
                proof {
                    assert(model.vals[q as int] == model_at(q as int));
                }
                vals.push(v);
                q += 1;
                xx += 1;
            }
            y += 1;
        }
        c += 1;
    }
    proof {
        assert(vals@ =~= model.vals);
    }
    Ok(Tensor { id: 0, shape: out_shape, vals, taped: x.taped })
}

impl BuildOnDevice for DynMaxPool2D {
    type Built = DynMaxPool2D;

    open spec fn c_wf(&self) -> bool {
        true
    }

    open spec fn can_alloc(&self) -> bool {
        true
    }

    open spec fn n_ids(&self) -> nat {
        0
    }

    open spec fn built_model(&self, id0: u64) -> DynMaxPool2D {
        *self
    }

    proof fn lemma_build_deterministic(&self, a: u64, b: u64) {
    }

    fn try_build_on_device(&self, dev: &mut Device) -> (r: Result<DynMaxPool2D, Error>) {
        Ok(*self)
    }
}



} // verus!

use vstd::prelude::*;

use vstd::arithmetic::div_mod::lemma_fundamental_div_mod_converse;
use vstd::arithmetic::mul::{
    lemma_mul_inequality, lemma_mul_is_associative, lemma_mul_is_commutative,
    lemma_mul_is_distributive_add, lemma_mul_nonnegative,
};

use crate::base::{shapes_of, upd_fold, BuildOnDevice, BuiltModule, Module, Optimizer,
    ResetParams, UpdateParams, ZeroGrads};
use crate::device::Device;
use crate::error::Error;
use crate::grads::Gradients;
use crate::ops::{init_bounded, init_bound_of};
use crate::tensor::{numel, Tensor, TensorModel};

verus! {

broadcast use vstd::std_specs::vec::group_vec_axioms;

/// Two-dimensional convolution configuration: channel counts, square kernel
/// size, and the stride, padding, dilation and group hyperparameters the
/// engine's convolution kernel is invoked with. The channel counts must both
/// be divisible by the group count.
#[derive(Clone, Copy, Debug, PartialEq, Eq, Structural)]
pub struct Conv2D {
    pub in_chan: usize,
    pub out_chan: usize,
    pub kernel_size: usize,
    pub stride: usize,
    pub padding: usize,
    pub dilation: usize,
    pub groups: usize,
}

/// The built convolution module: one trainable weight of shape
/// `(out_chan, in_chan / groups, kernel, kernel)` plus the verbatim-copied
/// hyperparameters. Its forward delegates to the engine's convolution kernel.
#[derive(Clone, Debug)]
pub struct DeviceConv2D {
    pub weight: Tensor,
    pub stride: usize,
    pub padding: usize,
    pub dilation: usize,
    pub groups: usize,
}

/// Model of a built convolution module.
#[verifier::ext_equal]
pub struct DeviceConv2DV {
    pub weight: TensorModel,
    pub stride: usize,
    pub padding: usize,
    pub dilation: usize,
    pub groups: usize,
}

impl View for DeviceConv2D {
    type V = DeviceConv2DV;

    open spec fn view(&self) -> DeviceConv2DV {
        DeviceConv2DV {
            weight: self.weight@,
            stride: self.stride,
            padding: self.padding,
            dilation: self.dilation,
            groups: self.groups,
        }
    }
}

impl BuiltModule for DeviceConv2D {
    open spec fn v_wf(v: DeviceConv2DV) -> bool {
        v.weight.wf() && v.weight.shape.len() == 4 && !v.weight.taped && v.weight.shape[2]
            == v.weight.shape[3]
    }

    open spec fn tensors_of(v: DeviceConv2DV) -> Seq<TensorModel> {
        seq![v.weight]
    }

    open spec fn params_of(v: DeviceConv2DV) -> Seq<TensorModel> {
        seq![v.weight]
    }

    open spec fn with_params(v: DeviceConv2DV, ps: Seq<TensorModel>) -> DeviceConv2DV {
        if ps.len() == 1 {
            DeviceConv2DV { weight: ps[0], ..v }
        } else {
            v
        }
    }

    proof fn lemma_tensors_wf(v: DeviceConv2DV) {
    }
}

/// The accumulated sum over the first `t` cells of one convolution window:
/// cell `t` addresses grouped input channel `t / (k * k)` and kernel offsets
/// `((t / k) % k, t % k)`; cells outside the input act as zero padding.
pub open spec fn conv_fold(
    xv: Seq<i64>,
    wv: Seq<i64>,
    hh: int,
    ww: int,
    ig: int,
    k: int,
    s: int,
    p: int,
    d: int,
    base_ic: int,
    o: int,
    y: int,
    x: int,
    t: int,
) -> i64
    decreases t,
{
    if t <= 0 {
        0
    } else {
        let prev = conv_fold(xv, wv, hh, ww, ig, k, s, p, d, base_ic, o, y, x, t - 1);
        let ic = (t - 1) / (k * k);
        let ky = ((t - 1) / k) % k;
        let kx = (t - 1) % k;
        let iy = y * s + ky * d - p;
        let ix = x * s + kx * d - p;
        if 0 <= iy < hh && 0 <= ix < ww {
            vstd::wrapping::i64_specs::wrapping_add(
                prev,
                vstd::wrapping::i64_specs::wrapping_mul(
                    xv[((base_ic + ic) * hh + iy) * ww + ix],
                    wv[((o * ig + ic) * k + ky) * k + kx],
                ),
            )
        } else {
            prev
        }
    }
}

/// Two-dimensional convolution of a rank-3 `(channel, height, width)` input
/// with the built weight: output channel `o` of group `g` reduces its group's
/// input channels over the kernel window, with zero padding outside the
/// input.
pub open spec fn conv_model(x: TensorModel, v: DeviceConv2DV) -> Result<TensorModel, Error> {
    let hh = if x.shape.len() == 3 {
        x.shape[1] as int
    } else {
        0
    };
    let ww = if x.shape.len() == 3 {
        x.shape[2] as int
    } else {
        0
    };
    let oc = v.weight.shape[0] as int;
    let ig = v.weight.shape[1] as int;
    let k = v.weight.shape[2] as int;
    let s = v.stride as int;
    let p = v.padding as int;
    let d = v.dilation as int;
    let g = v.groups as int;
    if x.shape.len() != 3 {
        Err(Error::Rank)
    } else if g < 1 || oc % g != 0 || x.shape[0] != ig * g || s < 1 || k < 1 {
        Err(Error::Dim)
    } else if hh + 2 * p > usize::MAX || ww + 2 * p > usize::MAX || d * (k - 1) + 1 > usize::MAX
        || ig * k * k > usize::MAX {
        Err(Error::Alloc)
    } else if hh + 2 * p < d * (k - 1) + 1 || ww + 2 * p < d * (k - 1) + 1 {
        Err(Error::Dim)
    } else {
        let oh = crate::max_pool_2d::pool_out_dim(hh, k, s, p, d);
        let ow = crate::max_pool_2d::pool_out_dim(ww, k, s, p, d);
        if !crate::tensor::shape_fits(seq![v.weight.shape[0], oh as usize, ow as usize]) {
            Err(Error::Alloc)
        } else {
            Ok(
                TensorModel {
                    id: 0,
                    shape: seq![v.weight.shape[0], oh as usize, ow as usize],
                    vals: Seq::new(
                        (oc * oh * ow) as nat,
                        |q: int|
                            conv_fold(
                                x.vals,
                                v.weight.vals,
                                hh,
                                ww,
                                ig,
                                k,
                                s,
                                p,
                                d,
                                ((q / (oh * ow)) / (oc / g)) * ig,
                                q / (oh * ow),
                                (q / ow) % oh,
                                q % ow,
                                ig * k * k,
                            ),
                    ),
                    taped: x.taped,
                },
            )
        }
    }
}

/// The fan-in of one convolution output element: kernel area times the
/// grouped input channels, saturated at the machine word.
pub open spec fn conv_fan_in(ig: usize, k: usize) -> usize {
    if ig * k * k <= usize::MAX {
        (ig * k * k) as usize
    } else {
        usize::MAX
    }
}

/// Computes the convolution fan-in.
pub fn conv_fan_in_of(ig: usize, k: usize) -> (r: usize)
    ensures
        r == conv_fan_in(ig, k),
{
    let a = match ig.checked_mul(k) {
        Some(a) => a,
        None => {
            proof {
                lemma_fan_grow(ig as int, k as int);
            }
            return usize::MAX;
        },
    };
    match a.checked_mul(k) {
        Some(b) => b,
        None => usize::MAX,
    }
}

/// A product that overflows keeps overflowing when multiplied further.
proof fn lemma_fan_grow(ig: int, k: int)
    requires
        ig >= 0,
        k >= 0,
        ig * k > usize::MAX,
    ensures
        ig * k * k > usize::MAX,
{
    assert(k >= 1) by (nonlinear_arith)
        requires
            ig * k > usize::MAX,
            ig >= 0,
            k >= 0,
    ;
    vstd::arithmetic::mul::lemma_mul_inequality(1, k, ig * k);
    vstd::arithmetic::mul::lemma_mul_is_commutative(ig * k, k);
}

/// The sum of one convolution window.
fn conv_window(
    xv: &Vec<i64>,
    wv: &Vec<i64>,
    c_count: usize,
    hh: usize,
    ww: usize,
    oc: usize,
    ig: usize,
    k: usize,
    s: usize,
    p: usize,
    d: usize,
    base_ic: usize,
    o: usize,
    y: usize,
    x: usize,
) -> (r: i64)
    requires
        base_ic + ig <= c_count,
        xv@.len() == c_count * hh * ww,
        wv@.len() == oc * ig * k * k,
        o < oc,
        k >= 1,
        ig * k * k <= usize::MAX,
        y * s + (k - 1) * d <= usize::MAX,
        x * s + (k - 1) * d <= usize::MAX,
    ensures
        r == conv_fold(
            xv@,
            wv@,
            hh as int,
            ww as int,
            ig as int,
            k as int,
            s as int,
            p as int,
            d as int,
            base_ic as int,
            o as int,
            y as int,
            x as int,
            (ig as int) * (k as int) * (k as int),
        ),
{
    let ghost kk = (k as int) * (k as int);
    proof {
        assert(0int * kk == 0) by (nonlinear_arith);
        lemma_mul_is_associative(ig as int, k as int, k as int);
    }
    let mut acc: i64 = 0;
    let mut t: usize = 0;
    let mut ic: usize = 0;
    while ic < ig
        invariant
            0 <= ic <= ig,
            t == ic * kk,
            kk == (k as int) * (k as int),
            (ig as int) * kk == (ig as int) * (k as int) * (k as int),
            base_ic + ig <= c_count,
            xv@.len() == c_count * hh * ww,
            wv@.len() == oc * ig * k * k,
            o < oc,
            k >= 1,
            ig * k * k <= usize::MAX,
            y * s + (k - 1) * d <= usize::MAX,
            x * s + (k - 1) * d <= usize::MAX,
            acc == conv_fold(
                xv@,
                wv@,
                hh as int,
                ww as int,
                ig as int,
                k as int,
                s as int,
                p as int,
                d as int,
                base_ic as int,
                o as int,
                y as int,
                x as int,
                t as int,
            ),
        decreases ig - ic,
    {
        proof {
            lemma_mul_inequality(ic + 1, ig as int, kk);
            lemma_mul_is_distributive_add(kk, ic as int, 1);
            lemma_mul_is_commutative(kk, ic as int);
            lemma_mul_is_commutative(kk, ic + 1);
            lemma_mul_nonnegative(ic as int, kk);
        }
        let mut ky: usize = 0;
        while ky < k
            invariant
                0 <= ky <= k,
                0 <= ic < ig,
                t == ic * kk + ky * (k as int),
                kk == (k as int) * (k as int),
                (ig as int) * kk == (ig as int) * (k as int) * (k as int),
                ic * kk + kk == (ic + 1) * kk,
                (ic + 1) * kk <= (ig as int) * kk,
                ic * kk >= 0,
                base_ic + ig <= c_count,
                xv@.len() == c_count * hh * ww,
                wv@.len() == oc * ig * k * k,
                o < oc,
                k >= 1,
                ig * k * k <= usize::MAX,
                y * s + (k - 1) * d <= usize::MAX,
                x * s + (k - 1) * d <= usize::MAX,
                acc == conv_fold(
                    xv@,
                    wv@,
                    hh as int,
                    ww as int,
                    ig as int,
                    k as int,
                    s as int,
                    p as int,
                    d as int,
                    base_ic as int,
                    o as int,
                    y as int,
                    x as int,
                    t as int,
                ),
            decreases k - ky,
        {
            proof {
                lemma_mul_inequality(ky + 1, k as int, k as int);
                lemma_mul_is_distributive_add(k as int, ky as int, 1);
                lemma_mul_is_commutative(k as int, ky as int);
                lemma_mul_is_commutative(k as int, ky + 1);
                lemma_mul_nonnegative(ky as int, k as int);
            }
            let mut kx: usize = 0;
            while kx < k
                invariant
                    0 <= kx <= k,
                    0 <= ky < k,
                    0 <= ic < ig,
                    t == ic * kk + ky * (k as int) + kx,
                    kk == (k as int) * (k as int),
                    (ig as int) * kk == (ig as int) * (k as int) * (k as int),
                    ic * kk + kk == (ic + 1) * kk,
                    (ic + 1) * kk <= (ig as int) * kk,
                    ic * kk >= 0,
                    ky * (k as int) + k == (ky + 1) * (k as int),
                    (ky + 1) * (k as int) <= kk,
                    ky * (k as int) >= 0,
                    base_ic + ig <= c_count,
                    xv@.len() == c_count * hh * ww,
                    wv@.len() == oc * ig * k * k,
                    o < oc,
                    k >= 1,
                    ig * k * k <= usize::MAX,
                    y * s + (k - 1) * d <= usize::MAX,
                    x * s + (k - 1) * d <= usize::MAX,
                    acc == conv_fold(
                        xv@,
                        wv@,
                        hh as int,
                        ww as int,
                        ig as int,
                        k as int,
                        s as int,
                        p as int,
                        d as int,
                        base_ic as int,
                        o as int,
                        y as int,
                        x as int,
                        t as int,
                    ),
                decreases k - kx,
            {
                proof {
                    // the window position decomposes into (ic, ky, kx)
                    lemma_fundamental_div_mod_converse(
                        (ky * (k as int) + kx) as int,
                        k as int,
                        ky as int,
                        kx as int,
                    );
                    assert(ky * (k as int) + kx < kk);
                    lemma_fundamental_div_mod_converse(
                        t as int,
                        kk,
                        ic as int,
                        ky * (k as int) + kx,
                    );
                    assert((t as int) / (k as int) == ic * (k as int) + ky && (t as int) % (
                    k as int) == kx) by {
                        lemma_mul_is_associative(ic as int, k as int, k as int);
                        lemma_mul_is_distributive_add(k as int, ic * (k as int), ky as int);
                        lemma_mul_is_commutative(k as int, ic * (k as int));
                        lemma_mul_is_commutative(k as int, ic * (k as int) + ky);
                        lemma_mul_is_commutative(k as int, ky as int);
                        lemma_fundamental_div_mod_converse(
                            t as int,
                            k as int,
                            ic * (k as int) + ky,
                            kx as int,
                        );
                    }
                    assert(((t as int) / (k as int)) % (k as int) == ky) by {
                        lemma_mul_is_commutative(k as int, ic as int);
                        lemma_fundamental_div_mod_converse(
                            ic * (k as int) + ky,
                            k as int,
                            ic as int,
                            ky as int,
                        );
                    }
                    lemma_mul_inequality(ky as int, k - 1, d as int);
                    lemma_mul_inequality(kx as int, k - 1, d as int);
                    lemma_mul_is_commutative(d as int, ky as int);
                    lemma_mul_is_commutative(d as int, kx as int);
                    lemma_mul_is_commutative(d as int, k - 1);
                    lemma_mul_nonnegative(ky as int, d as int);
                    lemma_mul_nonnegative(kx as int, d as int);
                }
                let vy = y * s + ky * d;
                let vx = x * s + kx * d;
                let mut term: i64 = 0;
                if vy >= p && vy - p < hh && vx >= p && vx - p < ww {
                    let iy = vy - p;
                    let ix = vx - p;
                    proof {
                        vstd::std_specs::vec::axiom_spec_len(xv);
                        vstd::std_specs::vec::axiom_spec_len(wv);
                        let cin = (base_ic + ic) as int;
                        assert((cin * hh + iy) * ww + ix < c_count * hh * ww) by (nonlinear_arith)
                            requires
                                0 <= cin < c_count,
                                0 <= iy < hh,
                                0 <= ix < ww,
                        ;
                        assert(cin * (hh as int) >= 0 && (cin * (hh as int) + iy) * ww >= 0
                            && cin * (hh as int) + iy <= (cin * (hh as int) + iy) * ww)
                            by (nonlinear_arith)
                            requires
                                cin >= 0,
                                hh >= 0,
                                0 <= iy,
                                ww >= 1,
                        ;
                        assert(cin * (hh as int) <= cin * (hh as int) + iy);
                        let wo = (o as int) * (ig as int) + ic;
                        assert(0 <= (o as int) * (ig as int) + ic < (oc as int) * (ig as int))
                            by (nonlinear_arith)
                            requires
                                0 <= o < oc,
                                0 <= ic < ig,
                        ;
                        assert((oc as int) * (ig as int) <= (oc as int) * (ig as int) * (k as int)
                            * (k as int)) by (nonlinear_arith)
                            requires
                                k >= 1,
                                oc >= 0,
                                ig >= 0,
                        ;
                        assert((wo * k + ky) * k + kx < oc * ig * k * k) by (nonlinear_arith)
                            requires
                                0 <= (o as int) * (ig as int) + ic < (oc as int) * (ig as int),
                                wo == (o as int) * (ig as int) + ic,
                                0 <= ky < k,
                                0 <= kx < k,
                        ;
                        assert(wo * (k as int) >= 0 && (wo * (k as int) + ky) * k >= 0 && wo * (
                        k as int) <= (wo * (k as int) + ky) * k && wo * (k as int) + ky <= (wo * (
                        k as int) + ky) * k) by (nonlinear_arith)
                            requires
                                wo >= 0,
                                k >= 1,
                                0 <= ky,
                        ;
                    }
                    let xi = ((base_ic + ic) * hh + iy) * ww + ix;
                    let wi = ((o * ig + ic) * k + ky) * k + kx;
                    term = xv[xi].wrapping_mul(wv[wi]);
                }
                acc = acc.wrapping_add(term);
                t += 1;
                kx += 1;
            }
            ky += 1;
        }
        ic += 1;
    }
    acc
}

/// Executes the convolution forward pass over a rank-3 input.
fn conv_fwd(x: &Tensor, m: &DeviceConv2D) -> (r: Result<Tensor, Error>)
    requires
        x@.wf(),
        DeviceConv2D::v_wf(m@),
    ensures
        crate::ops::res_model(r) == conv_model(x@, m@),
        r matches Ok(t) ==> t@.wf(),
{
    if x.shape.len() != 3 {
        return Err(Error::Rank);
    }
    let oc = m.weight.shape[0];
    let ig = m.weight.shape[1];
    let k = m.weight.shape[2];
    let s = m.stride;
    let p = m.padding;
    let d = m.dilation;
    let g = m.groups;
    proof {
        crate::max_pool_2d::lemma_numel_three(x@.shape);
        lemma_numel_four(m@.weight.shape);
        vstd::std_specs::vec::axiom_spec_len(&x.vals);
        vstd::std_specs::vec::axiom_spec_len(&m.weight.vals);
    }
    if g < 1 || oc % g != 0 {
        return Err(Error::Dim);
    }
    let cg = match ig.checked_mul(g) {
        Some(v) => v,
        None => {
            proof {
                assert(x@.shape[0] < (ig as int) * (g as int)) by (nonlinear_arith)
                    requires
                        (ig as int) * (g as int) > usize::MAX,
                        x@.shape[0] <= usize::MAX,
                ;
            }
            return Err(Error::Dim);
        },
    };
    if x.shape[0] != cg || s < 1 || k < 1 {
        return Err(Error::Dim);
    }
    let c_count = x.shape[0];
    let hh = x.shape[1];
    let ww = x.shape[2];
    let reach = match d.checked_mul(k - 1) {
        Some(v) => match v.checked_add(1) {
            Some(v1) => v1,
            None => {
                return Err(Error::Alloc);
            },
        },
        None => {
            return Err(Error::Alloc);
        },
    };
    let kk = match ig.checked_mul(k) {
        Some(a) => match a.checked_mul(k) {
            Some(b) => b,
            None => {
                proof {
                    lemma_mul_is_associative(ig as int, k as int, k as int);
                }
                return Err(Error::Alloc);
            },
        },
        None => {
            proof {
                lemma_fan_grow(ig as int, k as int);
                lemma_mul_is_associative(ig as int, k as int, k as int);
            }
            return Err(Error::Alloc);
        },
    };
    let h_ext = match p.checked_mul(2) {
        Some(p2) => match hh.checked_add(p2) {
            Some(v) => v,
            None => {
                return Err(Error::Alloc);
            },
        },
        None => {
            return Err(Error::Alloc);
        },
    };
    let w_ext = match p.checked_mul(2) {
        Some(p2) => match ww.checked_add(p2) {
            Some(v) => v,
            None => {
                return Err(Error::Alloc);
            },
        },
        None => {
            return Err(Error::Alloc);
        },
    };
    if h_ext < reach || w_ext < reach {
        return Err(Error::Dim);
    }
    let oh = (h_ext - reach) / s + 1;
    let ow = (w_ext - reach) / s + 1;
    proof {
        assert(oh as int == crate::max_pool_2d::pool_out_dim(
            hh as int,
            k as int,
            s as int,
            p as int,
            d as int,
        ));
        assert(ow as int == crate::max_pool_2d::pool_out_dim(
            ww as int,
            k as int,
            s as int,
            p as int,
            d as int,
        ));
        vstd::arithmetic::div_mod::lemma_fundamental_div_mod((h_ext - reach) as int, s as int);
        vstd::arithmetic::div_mod::lemma_fundamental_div_mod((w_ext - reach) as int, s as int);
        assert((oh - 1) * s <= h_ext - reach) by {
            let qd = ((h_ext - reach) as int) / (s as int);
            assert((h_ext - reach) as int == (s as int) * qd + ((h_ext - reach) as int) % (
            s as int));
            lemma_mul_is_commutative(s as int, qd);
        }
        assert((ow - 1) * s <= w_ext - reach) by {
            let qd = ((w_ext - reach) as int) / (s as int);
            assert((w_ext - reach) as int == (s as int) * qd + ((w_ext - reach) as int) % (
            s as int));
            lemma_mul_is_commutative(s as int, qd);
        }
        lemma_mul_is_commutative(d as int, k - 1);
        assert((oh - 1) * s + (k - 1) * d <= usize::MAX);
        assert((ow - 1) * s + (k - 1) * d <= usize::MAX);
    }
    let mut out_shape: Vec<usize> = Vec::new();
    out_shape.push(oc);
    out_shape.push(oh);
    out_shape.push(ow);
    proof {
        assert(out_shape@ =~= seq![oc, oh, ow]);
    }
    let n_out = match crate::tensor::numel_checked(&out_shape) {
        Some(n) => n,
        None => {
            return Err(Error::Alloc);
        },
    };
    let opg = oc / g;
    let ghost model = conv_model(x@, m@)->Ok_0;
    let ghost model_at = |q: int|
        conv_fold(
            x@.vals,
            m@.weight.vals,
            hh as int,
            ww as int,
            ig as int,
            k as int,
            s as int,
            p as int,
            d as int,
            ((q / ((oh as int) * (ow as int))) / (opg as int)) * (ig as int),
            q / ((oh as int) * (ow as int)),
            (q / (ow as int)) % (oh as int),
            q % (ow as int),
            (ig as int) * (k as int) * (k as int),
        );
    proof {
        crate::max_pool_2d::lemma_numel_three(out_shape@);
        lemma_mul_is_associative(oc as int, oh as int, ow as int);
        assert(model.vals.len() == numel(out_shape@));
        assert forall|q: int| 0 <= q < model.vals.len() implies model.vals[q] == model_at(q) by {
            assert(model.vals[q] == conv_fold(
                x@.vals,
                m@.weight.vals,
                hh as int,
                ww as int,
                ig as int,
                k as int,
                s as int,
                p as int,
                d as int,
                ((q / ((oh as int) * (ow as int))) / ((oc as int) / (g as int))) * (ig as int),
                q / ((oh as int) * (ow as int)),
                (q / (ow as int)) % (oh as int),
                q % (ow as int),
                (ig as int) * (k as int) * (k as int),
            ));
        }
        assert(0int * ((oh as int) * (ow as int)) == 0) by (nonlinear_arith);
        // the output channels split evenly into groups
        vstd::arithmetic::div_mod::lemma_fundamental_div_mod(oc as int, g as int);
        assert(oc as int == (opg as int) * (g as int)) by {
            lemma_mul_is_commutative(g as int, opg as int);
        }
    }
    let mut vals: Vec<i64> = Vec::new();
    let mut q: usize = 0;
    let mut o: usize = 0;
    while o < oc
        invariant
            0 <= o <= oc,
            q == o * ((oh as int) * (ow as int)),
            q == vals@.len(),
            oh >= 1,
            ow >= 1,
            k >= 1,
            s >= 1,
            g >= 1,
            ig * k * k <= usize::MAX,
            opg == oc / g,
            oc as int == (opg as int) * (g as int),
            c_count as int == (ig as int) * (g as int),
            (oh - 1) * s + (k - 1) * d <= usize::MAX,
            (ow - 1) * s + (k - 1) * d <= usize::MAX,
            x@.vals.len() == c_count * hh * ww,
            m@.weight.vals.len() == oc * ig * k * k,
            n_out == (oc as int) * ((oh as int) * (ow as int)),
            model.vals.len() == n_out,
            forall|j: int| 0 <= j < n_out ==> model.vals[j] == model_at(j),
            model_at == (|j: int|
                conv_fold(
                    x@.vals,
                    m@.weight.vals,
                    hh as int,
                    ww as int,
                    ig as int,
                    k as int,
                    s as int,
                    p as int,
                    d as int,
                    ((j / ((oh as int) * (ow as int))) / (opg as int)) * (ig as int),
                    j / ((oh as int) * (ow as int)),
                    (j / (ow as int)) % (oh as int),
                    j % (ow as int),
                    (ig as int) * (k as int) * (k as int),
                )),
            forall|j: int| 0 <= j < q ==> vals@[j] == model.vals[j],
        decreases oc - o,
    {
        proof {
            lemma_mul_inequality(o + 1, oc as int, (oh as int) * (ow as int));
            lemma_mul_is_distributive_add((oh as int) * (ow as int), o as int, 1);
            lemma_mul_is_commutative((oh as int) * (ow as int), o as int);
            lemma_mul_is_commutative((oh as int) * (ow as int), o + 1);
            lemma_mul_nonnegative(o as int, (oh as int) * (ow as int));
            // the output channel's group selects its input-channel block
            assert(opg >= 1) by (nonlinear_arith)
                requires
                    (opg as int) * (g as int) == oc as int,
                    o < oc,
                    g >= 1,
                    opg >= 0,
            ;
        }
        let gi = o / opg;
        proof {
            vstd::arithmetic::div_mod::lemma_fundamental_div_mod(o as int, opg as int);
            assert(gi < g) by (nonlinear_arith)
                requires
                    o as int == (opg as int) * (gi as int) + (o as int) % (opg as int),
                    0 <= (o as int) % (opg as int),
                    o < oc,
                    oc as int == (opg as int) * (g as int),
                    opg >= 1,
                    gi >= 0,
            ;
            assert((gi + 1) * (ig as int) <= (g as int) * (ig as int)) by (nonlinear_arith)
                requires
                    gi + 1 <= g as int,
                    ig >= 0,
            ;
            lemma_mul_is_distributive_add(ig as int, gi as int, 1);
            lemma_mul_is_commutative(ig as int, gi as int);
            lemma_mul_is_commutative(ig as int, gi + 1);
            lemma_mul_is_commutative(g as int, ig as int);
            lemma_mul_nonnegative(gi as int, ig as int);
        }
        let base_ic = gi * ig;
        let mut y: usize = 0;
        while y < oh
            invariant
                0 <= y <= oh,
                0 <= o < oc,
                q == o * ((oh as int) * (ow as int)) + y * (ow as int),
                q == vals@.len(),
                oh >= 1,
                ow >= 1,
                k >= 1,
                s >= 1,
                g >= 1,
                opg >= 1,
                gi == o / opg,
                base_ic == (o as int / opg as int) * (ig as int),
                base_ic + ig <= c_count,
                ig * k * k <= usize::MAX,
                (oh - 1) * s + (k - 1) * d <= usize::MAX,
                (ow - 1) * s + (k - 1) * d <= usize::MAX,
                x@.vals.len() == c_count * hh * ww,
                m@.weight.vals.len() == oc * ig * k * k,
                n_out == (oc as int) * ((oh as int) * (ow as int)),
                (o + 1) * ((oh as int) * (ow as int)) <= n_out,
                o * ((oh as int) * (ow as int)) + ((oh as int) * (ow as int)) == (o + 1) * ((
                oh as int) * (ow as int)),
                o * ((oh as int) * (ow as int)) >= 0,
                model.vals.len() == n_out,
                forall|j: int| 0 <= j < n_out ==> model.vals[j] == model_at(j),
                model_at == (|j: int|
                    conv_fold(
                        x@.vals,
                        m@.weight.vals,
                        hh as int,
                        ww as int,
                        ig as int,
                        k as int,
                        s as int,
                        p as int,
                        d as int,
                        ((j / ((oh as int) * (ow as int))) / (opg as int)) * (ig as int),
                        j / ((oh as int) * (ow as int)),
                        (j / (ow as int)) % (oh as int),
                        j % (ow as int),
                        (ig as int) * (k as int) * (k as int),
                    )),
                forall|j: int| 0 <= j < q ==> vals@[j] == model.vals[j],
            decreases oh - y,
        {
            proof {
                lemma_mul_inequality(y + 1, oh as int, ow as int);
                lemma_mul_is_distributive_add(ow as int, y as int, 1);
                lemma_mul_is_commutative(ow as int, y as int);
                lemma_mul_is_commutative(ow as int, y + 1);
                lemma_mul_nonnegative(y as int, ow as int);
                lemma_mul_inequality(y as int, oh - 1, s as int);
                lemma_mul_is_commutative(s as int, y as int);
                lemma_mul_is_commutative(s as int, oh - 1);
            }
            let mut xx: usize = 0;
            while xx < ow
                invariant
                    0 <= xx <= ow,
                    0 <= y < oh,
                    0 <= o < oc,
                    q == o * ((oh as int) * (ow as int)) + y * (ow as int) + xx,
                    q == vals@.len(),
                    oh >= 1,
                    ow >= 1,
                    k >= 1,
                    s >= 1,
                    g >= 1,
                    opg >= 1,
                    gi == o / opg,
                    base_ic == (o as int / opg as int) * (ig as int),
                    base_ic + ig <= c_count,
                    ig * k * k <= usize::MAX,
                    (oh - 1) * s + (k - 1) * d <= usize::MAX,
                    (ow - 1) * s + (k - 1) * d <= usize::MAX,
                    y * s + (k - 1) * d <= usize::MAX,
                    y * (ow as int) + ow == (y + 1) * (ow as int),
                    (y + 1) * (ow as int) <= (oh as int) * (ow as int),
                    y * (ow as int) >= 0,
                    x@.vals.len() == c_count * hh * ww,
                    m@.weight.vals.len() == oc * ig * k * k,
                    n_out == (oc as int) * ((oh as int) * (ow as int)),
                    (o + 1) * ((oh as int) * (ow as int)) <= n_out,
                    o * ((oh as int) * (ow as int)) + ((oh as int) * (ow as int)) == (o + 1) * ((
                    oh as int) * (ow as int)),
                    o * ((oh as int) * (ow as int)) >= 0,
                    model.vals.len() == n_out,
                    forall|j: int| 0 <= j < n_out ==> model.vals[j] == model_at(j),
                    model_at == (|j: int|
                        conv_fold(
                            x@.vals,
                            m@.weight.vals,
                            hh as int,
                            ww as int,
                            ig as int,
                            k as int,
                            s as int,
                            p as int,
                            d as int,
                            ((j / ((oh as int) * (ow as int))) / (opg as int)) * (ig as int),
                            j / ((oh as int) * (ow as int)),
                            (j / (ow as int)) % (oh as int),
                            j % (ow as int),
                            (ig as int) * (k as int) * (k as int),
                        )),
                    forall|j: int| 0 <= j < q ==> vals@[j] == model.vals[j],
                decreases ow - xx,
            {
                proof {
                    lemma_mul_inequality(xx as int, ow - 1, s as int);
                    lemma_mul_is_commutative(s as int, xx as int);
                    lemma_mul_is_commutative(s as int, ow - 1);
                    lemma_mul_nonnegative(xx as int, s as int);
                    lemma_mul_nonnegative(y as int, s as int);
                    let ohow = (oh as int) * (ow as int);
                    lemma_fundamental_div_mod_converse(
                        (y * (ow as int) + xx) as int,
                        ow as int,
                        y as int,
                        xx as int,
                    );
                    assert(y * (ow as int) + xx < ohow);
                    lemma_fundamental_div_mod_converse(
                        q as int,
                        ohow,
                        o as int,
                        y * (ow as int) + xx,
                    );
                    assert((q as int) / (ow as int) == o * (oh as int) + y && (q as int) % (
                    ow as int) == xx) by {
                        lemma_mul_is_associative(o as int, oh as int, ow as int);
                        lemma_mul_is_distributive_add(ow as int, o * (oh as int), y as int);
                        lemma_mul_is_commutative(ow as int, o * (oh as int));
                        lemma_mul_is_commutative(ow as int, o * (oh as int) + y);
                        lemma_mul_is_commutative(ow as int, y as int);
                        lemma_fundamental_div_mod_converse(
                            q as int,
                            ow as int,
                            o * (oh as int) + y,
                            xx as int,
                        );
                    }
                    assert(((q as int) / (ow as int)) % (oh as int) == y) by {
                        lemma_mul_is_commutative(oh as int, o as int);
                        lemma_fundamental_div_mod_converse(
                            o * (oh as int) + y,
                            oh as int,
                            o as int,
                            y as int,
                        );
                    }
                }
                let v = conv_window(
                    &x.vals,
                    &m.weight.vals,
                    c_count,
                    hh,
                    ww,
                    oc,
                    ig,
                    k,
                    s,
                    p,
                    d,
                    base_ic,
                    o,
                    y,
                    xx,
                );
                proof {
                    assert(model.vals[q as int] == model_at(q as int));
                }
                vals.push(v);
                q += 1;
                xx += 1;
            }
            y += 1;
        }
        o += 1;
    }
    proof {
        assert(vals@ =~= model.vals);
    }
    Ok(Tensor { id: 0, shape: out_shape, vals, taped: x.taped })
}

/// The element count of a rank-4 shape is the product of its axes.
proof fn lemma_numel_four(s: Seq<usize>)
    requires
        s.len() == 4,
    ensures
        numel(s) == (s[0] as int) * (s[1] as int) * (s[2] as int) * (s[3] as int),
{
    assert(s.drop_first() =~= seq![s[1], s[2], s[3]]);
    crate::max_pool_2d::lemma_numel_three(seq![s[1], s[2], s[3]]);
    assert(numel(s) == (s[0] as int) * ((s[1] as int) * (s[2] as int) * (s[3] as int)));
    assert((s[0] as int) * ((s[1] as int) * (s[2] as int) * (s[3] as int)) == (s[0] as int) * (
    s[1] as int) * (s[2] as int) * (s[3] as int)) by (nonlinear_arith);
}

impl Module for DeviceConv2D {
    open spec fn fwd_pre(v: DeviceConv2DV, x: TensorModel) -> bool {
        true
    }

    open spec fn fwd_mut_pre(v: DeviceConv2DV, x: TensorModel) -> bool {
        true
    }

    open spec fn fwd_of(v: DeviceConv2DV, x: TensorModel) -> Result<TensorModel, Error> {
        conv_model(x, v)
    }

    open spec fn fwd_mut_of(v: DeviceConv2DV, x: TensorModel) -> (
        DeviceConv2DV,
        Result<TensorModel, Error>,
    ) {
        (v, conv_model(x, v))
    }

    proof fn lemma_fwd_wf(v: DeviceConv2DV, x: TensorModel) {
        if conv_model(x, v) is Ok {
            let y = conv_model(x, v)->Ok_0;
            crate::max_pool_2d::lemma_numel_three(y.shape);
            crate::tensor::lemma_numel_nonneg(y.shape);
        }
    }

    fn try_forward(&self, x: Tensor) -> (r: Result<Tensor, Error>) {
        conv_fwd(&x, self)
    }

    fn try_forward_mut(&mut self, x: Tensor) -> (r: Result<Tensor, Error>) {
        conv_fwd(&x, self)
    }
}

impl BuildOnDevice for Conv2D {
    type Built = DeviceConv2D;

    /// The channel counts divide evenly into the groups; a configuration
    /// violating this is a programming error, not a recoverable one.
    open spec fn c_wf(&self) -> bool {
        &&& self.groups >= 1
        &&& self.in_chan % self.groups == 0
        &&& self.out_chan % self.groups == 0
    }

    open spec fn can_alloc(&self) -> bool {
        crate::tensor::shape_fits(
            seq![
                self.out_chan,
                (self.in_chan / self.groups) as usize,
                self.kernel_size,
                self.kernel_size,
            ],
        )
    }

    open spec fn n_ids(&self) -> nat {
        1
    }

    open spec fn built_model(&self, id0: u64) -> DeviceConv2DV {
        DeviceConv2DV {
            weight: TensorModel::filled(
                id0,
                seq![
                    self.out_chan,
                    (self.in_chan / self.groups) as usize,
                    self.kernel_size,
                    self.kernel_size,
                ],
                0,
            ),
            stride: self.stride,
            padding: self.padding,
            dilation: self.dilation,
            groups: self.groups,
        }
    }

    proof fn lemma_build_deterministic(&self, a: u64, b: u64) {
        crate::tensor::lemma_numel_nonneg(
            seq![
                self.out_chan,
                (self.in_chan / self.groups) as usize,
                self.kernel_size,
                self.kernel_size,
            ],
        );
        assert(shapes_of(Self::Built::tensors_of(self.built_model(a))) =~= shapes_of(
            Self::Built::tensors_of(self.built_model(b)),
        ));
        assert(shapes_of(Self::Built::params_of(self.built_model(a))) =~= shapes_of(
            Self::Built::params_of(self.built_model(b)),
        ));
    }

    fn try_build_on_device(&self, dev: &mut Device) -> (r: Result<DeviceConv2D, Error>) {
        let i_over_g = self.in_chan / self.groups;
        let mut shape: Vec<usize> = Vec::new();
        shape.push(self.out_chan);
        shape.push(i_over_g);
        shape.push(self.kernel_size);
        shape.push(self.kernel_size);
        proof {
            assert(shape@ =~= seq![
                self.out_chan,
                (self.in_chan / self.groups) as usize,
                self.kernel_size,
                self.kernel_size,
            ]);
        }
        let weight = match dev.try_zeros(&shape) {
            Ok(t) => t,
            Err(e) => {
                return Err(e);
            },
        };
        let built = DeviceConv2D {
            weight,
            stride: self.stride,
            padding: self.padding,
            dilation: self.dilation,
            groups: self.groups,
        };
        proof {
            assert(built@ =~= self.built_model(old(dev).next_id));
            assert(built@.weight.wf());
            assert(built@.weight.shape.len() == 4);
            assert(built@.weight.shape[2] == built@.weight.shape[3]);
            assert(DeviceConv2D::v_wf(built@));
            assert(final(dev).next_id == old(dev).next_id + self.n_ids());
        }
        Ok(built)
    }
}

impl ResetParams for DeviceConv2D {
    /// The weight keeps its frame and is refilled with draws bounded by the
    /// fan-in rule, the fan-in being kernel area times grouped input
    /// channels.
    open spec fn reset_rel(pre: DeviceConv2DV, post: DeviceConv2DV) -> bool {
        &&& pre.weight.same_frame(post.weight)
        &&& init_bounded(
            post.weight.vals,
            conv_fan_in(pre.weight.shape[1], pre.weight.shape[2]),
        )
        &&& post.stride == pre.stride
        &&& post.padding == pre.padding
        &&& post.dilation == pre.dilation
        &&& post.groups == pre.groups
    }

    fn try_reset_params(&mut self, dev: &mut Device) -> (r: Result<(), Error>) {
        let ig = self.weight.shape[1];
        let k = self.weight.shape[2];
        let fan_in = conv_fan_in_of(ig, k);
        let bound = init_bound_of(fan_in);
        dev.fill_uniform(&mut self.weight, bound);
        Ok(())
    }
}

impl UpdateParams for DeviceConv2D {
    fn try_update_params<O: Optimizer>(
        &mut self,
        opt: &mut O,
        grads: &Gradients,
        missing: &mut Vec<u64>,
    ) -> (r: Result<(), Error>) {
        proof {
            assert(Self::params_of(old(self)@)[0] == old(self)@.weight);
        }
        let res = opt.update_tensor(&mut self.weight, grads, missing);
        proof {
            let w = old(self)@.weight;
            crate::base::lemma_upd_fold_one::<O>(old(opt)@, w, grads@, old(missing)@);
            if grads@.contains_key(w.id) {
                O::lemma_step_frame(old(opt)@, w, grads@[w.id]);
            }
            assert(final(self)@ =~= Self::with_params(
                old(self)@,
                upd_fold::<O>(old(opt)@, Self::params_of(old(self)@), grads@, old(missing)@).1,
            ));
        }
        res
    }
}

impl ZeroGrads for DeviceConv2D {
    fn try_zero_grads(&self, grads: &mut Gradients) -> (r: Result<(), Error>) {
        grads.set_zero(&self.weight);
        proof {
            crate::base::lemma_zg_fold_one(self@.weight, old(grads)@);
        }
        Ok(())
    }
}

impl crate::serialize::SaveSafeTensors for DeviceConv2D {
    open spec fn recs_of(v: DeviceConv2DV, loc: Seq<char>) -> Seq<crate::serialize::RecordModel> {
        seq![crate::serialize::rec_of_tensor(loc + "weight"@, v.weight)]
    }

    open spec fn bytes_fit(v: DeviceConv2DV) -> bool {
        v.weight.vals.len() * 8 <= usize::MAX
    }

    fn write_safetensors(&self, loc: &str, out: &mut Vec<crate::serialize::Record>) {
        crate::serialize::write_leaf(&self.weight, loc, "weight", out);
    }
}

impl crate::serialize::LoadSafeTensors for DeviceConv2D {
    open spec fn load_model(
        v: DeviceConv2DV,
        recs: Seq<crate::serialize::RecordModel>,
        loc: Seq<char>,
    ) -> (DeviceConv2DV, Result<(), crate::error::LoadError>) {
        let (t2, r) = crate::serialize::load_leaf(v.weight, recs, loc + "weight"@);
        (DeviceConv2DV { weight: t2, ..v }, r)
    }

    fn read_safetensors(&mut self, loc: &str, recs: &Vec<crate::serialize::Record>) -> (r: Result<
        (),
        crate::error::LoadError,
    >) {
        let path = crate::serialize::join_path(loc, "weight");
        let r = crate::serialize::read_leaf(&mut self.weight, recs, &path);
        proof {
            assert(final(self)@ =~= Self::load_model(
                old(self)@,
                crate::vecs::views_of(recs@),
                loc@,
            ).0);
        }
        r
    }
}

} // verus!

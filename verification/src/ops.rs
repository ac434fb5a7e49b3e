use vstd::prelude::*;

use crate::error::Error;
use crate::tensor::{numel, Tensor, TensorModel};

verus! {

/// Copies a vector of plain values.
pub fn copy_vec<T: Copy>(v: &Vec<T>) -> (r: Vec<T>)
    ensures
        r@ == v@,
{
    let mut out: Vec<T> = Vec::new();
    let mut i: usize = 0;
    while i < v.len()
        invariant
            0 <= i <= v@.len(),
            out@ =~= v@.subrange(0, i as int),
        decreases v@.len() - i,
    {
        out.push(v[i]);
        i += 1;
    }
    proof {
        assert(v@.subrange(0, v@.len() as int) =~= v@);
    }
    out
}

/// Element values of the sum of two equally long value sequences, with the
/// engine's wrap-around integer addition.
pub open spec fn add_vals(a: Seq<i64>, b: Seq<i64>) -> Seq<i64> {
    Seq::new(a.len(), |i: int| vstd::wrapping::i64_specs::wrapping_add(a[i], b[i]))
}

/// The elementwise sum of two tensors. Defined exactly when the shapes agree;
/// the result is a fresh (identity-less) tensor that is taped when either
/// operand was.
pub open spec fn add_model(a: TensorModel, b: TensorModel) -> Result<TensorModel, Error> {
    if a.shape == b.shape && a.wf() && b.wf() {
        Ok(
            TensorModel {
                id: 0,
                shape: a.shape,
                vals: add_vals(a.vals, b.vals),
                taped: a.taped || b.taped,
            },
        )
    } else {
        Err(Error::Dim)
    }
}

/// Elementwise sum; errs exactly when the operand shapes disagree.
pub fn try_add(a: &Tensor, b: &Tensor) -> (r: Result<Tensor, Error>)
    requires
        a@.wf(),
        b@.wf(),
    ensures
        res_model(r) == add_model(a@, b@),
{
    if !crate::tensor::shapes_eq(&a.shape, &b.shape) {
        return Err(Error::Dim);
    }
    let n = a.vals.len();
    let mut vals: Vec<i64> = Vec::new();
    let mut i: usize = 0;
    while i < n
        invariant
            0 <= i <= n,
            n == a@.vals.len(),
            a@.vals.len() == b@.vals.len(),
            vals@ =~= add_vals(a@.vals, b@.vals).subrange(0, i as int),
        decreases n - i,
    {
        vals.push(a.vals[i].wrapping_add(b.vals[i]));
        i += 1;
    }
    proof {
        assert(add_vals(a@.vals, b@.vals).subrange(0, n as int) =~= add_vals(a@.vals, b@.vals));
    }
    Ok(Tensor { id: 0, shape: copy_vec(&a.shape), vals, taped: a.taped || b.taped })
}

/// The engine's rectifier: negative values become zero.
pub open spec fn relu_val(v: i64) -> i64 {
    if v < 0 {
        0
    } else {
        v
    }
}

/// The rectified tensor: the same frame with every element rectified.
pub open spec fn relu_model(x: TensorModel) -> TensorModel {
    x.with_vals(Seq::new(x.vals.len(), |i: int| relu_val(x.vals[i])))
}

/// Elementwise rectifier; total on well-formed tensors.
pub fn relu(x: &Tensor) -> (r: Tensor)
    requires
        x@.wf(),
    ensures
        r@ == relu_model(x@),
        r@.wf(),
{
    let n = x.vals.len();
    let mut vals: Vec<i64> = Vec::new();
    let mut i: usize = 0;
    while i < n
        invariant
            0 <= i <= n,
            n == x@.vals.len(),
            vals@ =~= relu_model(x@).vals.subrange(0, i as int),
        decreases n - i,
    {
        let v = x.vals[i];
        vals.push(if v < 0 { 0 } else { v });
        i += 1;
    }
    proof {
        assert(relu_model(x@).vals.subrange(0, n as int) =~= relu_model(x@).vals);
    }
    Tensor { id: x.id, shape: copy_vec(&x.shape), vals, taped: x.taped }
}

/// The sum of a tensor with a rank-1 bias broadcast across all leading axes:
/// in row-major order, element `p` receives `bias[p % n]` where `n` is the
/// trailing (feature) axis. Defined exactly when the bias is rank 1 and
/// matches the input's trailing axis, for inputs of rank 1, 2 or 3.
pub open spec fn bias_add_model(x: TensorModel, b: TensorModel) -> Result<TensorModel, Error> {
    if !(1 <= x.shape.len() <= 3) || b.shape.len() != 1 {
        Err(Error::Rank)
    } else if x.shape.last() != b.shape[0] {
        Err(Error::Dim)
    } else {
        Ok(
            TensorModel {
                id: 0,
                shape: x.shape,
                vals: Seq::new(
                    x.vals.len(),
                    |p: int|
                        vstd::wrapping::i64_specs::wrapping_add(
                            x.vals[p],
                            b.vals[p % b.shape[0] as int],
                        ),
                ),
                taped: x.taped || b.taped,
            },
        )
    }
}

/// Broadcast bias addition over the trailing axis, supporting unbatched,
/// batched and batched-sequence inputs; errs exactly when the ranks or the
/// feature axes do not fit.
pub fn try_bias_add(x: &Tensor, b: &Tensor) -> (r: Result<Tensor, Error>)
    requires
        x@.wf(),
        b@.wf(),
    ensures
        res_model(r) == bias_add_model(x@, b@),
        r matches Ok(t) ==> t@.wf(),
{
    if x.shape.len() < 1 || x.shape.len() > 3 || b.shape.len() != 1 {
        return Err(Error::Rank);
    }
    let n = b.shape[0];
    if x.shape[x.shape.len() - 1] != n {
        return Err(Error::Dim);
    }
    proof {
        // the bias element count is its single axis
        assert(b@.shape.drop_first() =~= Seq::<usize>::empty());
        assert(numel(Seq::<usize>::empty()) == 1);
        assert(b@.vals.len() == n * 1);
        // the feature axis divides the element count, so it is positive
        // whenever any element exists
        crate::linalg::lemma_numel_split_last(x@.shape);
        if x@.vals.len() > 0 && n == 0 {
            assert(numel(x@.shape.drop_last()) * 0 == 0) by (nonlinear_arith);
        }
    }
    let ghost model = bias_add_model(x@, b@)->Ok_0;
    let mut vals: Vec<i64> = Vec::new();
    let mut p: usize = 0;
    let len = x.vals.len();
    while p < len
        invariant
            0 <= p <= len,
            len == x@.vals.len(),
            len > 0 ==> n > 0,
            1 <= x@.shape.len() <= 3,
            x@.shape.last() == n,
            b@.vals.len() == n,
            b@.shape.len() == 1,
            n == b@.shape[0],
            model == bias_add_model(x@, b@)->Ok_0,
            model.vals.len() == len,
            vals@.len() == p,
            forall|q: int| 0 <= q < p ==> vals@[q] == model.vals[q],
        decreases len - p,
    {
        let j = p % n;
        proof {
            assert(model.vals[p as int] == vstd::wrapping::i64_specs::wrapping_add(
                x@.vals[p as int],
                b@.vals[p as int % n as int],
            ));
        }
        vals.push(x.vals[p].wrapping_add(b.vals[j]));
        p += 1;
    }
    proof {
        assert(vals@ =~= model.vals);
    }
    Ok(Tensor { id: 0, shape: copy_vec(&x.shape), vals, taped: x.taped || b.taped })
}

/// Truncating division, total: division by zero yields zero (the divisor is
/// positive wherever the engine divides).
pub open spec fn tdiv(x: i64, d: i64) -> i64 {
    match x.checked_div(d) {
        Some(q) => q,
        None => 0,
    }
}

/// Truncating division by a positive divisor.
pub fn tdiv_of(x: i64, d: i64) -> (r: i64)
    requires
        d >= 1,
    ensures
        r == tdiv(x, d),
{
    match x.checked_div(d) {
        Some(q) => q,
        None => {
            proof {
                assert(false);
            }
            vstd::pervasive::unreached()
        },
    }
}

/// Whether `r` is the integer square root of `n`.
pub open spec fn is_isqrt(n: nat, r: nat) -> bool {
    r * r <= n && n < (r + 1) * (r + 1)
}

/// The integer square root of `n` (the unique witness of `is_isqrt`).
pub open spec fn isqrt_spec(n: nat) -> nat {
    choose|r: nat| is_isqrt(n, r)
}

/// Every natural number has an integer square root.
pub proof fn lemma_isqrt_exists(n: nat) -> (r: nat)
    ensures
        is_isqrt(n, r),
    decreases n,
{
    if n == 0 {
        assert(0nat * 0nat <= 0 && 0 < (0nat + 1) * (0nat + 1)) by (nonlinear_arith);
        assert(is_isqrt(0, 0));
        0
    } else {
        let p = lemma_isqrt_exists((n - 1) as nat);
        if (p + 1) * (p + 1) <= n {
            assert((p + 2) * (p + 2) > n) by (nonlinear_arith)
                requires
                    (p + 1) * (p + 1) > n - 1,
                    p >= 0,
                    n >= 1,
            ;
            p + 1
        } else {
            p
        }
    }
}

/// The integer square root is unique.
pub proof fn lemma_isqrt_unique(n: nat, r: nat)
    requires
        is_isqrt(n, r),
    ensures
        r == isqrt_spec(n),
{
    let w = lemma_isqrt_exists(n);
    assert(is_isqrt(n, isqrt_spec(n)));
    let s = isqrt_spec(n);
    if r < s {
        assert((r + 1) * (r + 1) <= s * s) by (nonlinear_arith)
            requires
                r + 1 <= s,
        ;
    }
    if s < r {
        assert((s + 1) * (s + 1) <= r * r) by (nonlinear_arith)
            requires
                s + 1 <= r,
        ;
    }
}

/// `isqrt_spec` really is the integer square root.
pub proof fn lemma_isqrt_spec(n: nat)
    ensures
        is_isqrt(n, isqrt_spec(n)),
{
    let w = lemma_isqrt_exists(n);
}

/// Integer square root by binary search.
pub fn isqrt(n: usize) -> (r: usize)
    ensures
        r == isqrt_spec(n as nat),
        r < 0x1_0000_0000,
{
    let nn: u64 = n as u64;
    let mut lo: u64 = 0;
    let mut hi: u64 = 0x1_0000_0000u64;
    proof {
        assert(nn < 0x1_0000_0000int * 0x1_0000_0000int);
    }
    while lo + 1 < hi
        invariant
            0 <= lo < hi <= 0x1_0000_0000u64,
            lo * lo <= nn,
            nn < hi * hi,
        decreases hi - lo,
    {
        let mid = lo + (hi - lo) / 2;
        proof {
            assert(lo < mid < hi);
            assert(mid * mid < 0x1_0000_0000int * 0x1_0000_0000int) by (nonlinear_arith)
                requires
                    0 <= mid < 0x1_0000_0000u64,
            ;
        }
        let sq: u64 = mid * mid;
        if sq <= nn {
            lo = mid;
        } else {
            hi = mid;
        }
    }
    proof {
        assert(is_isqrt(nn as nat, lo as nat));
        lemma_isqrt_unique(nn as nat, lo as nat);
        if lo >= 1 {
            assert(lo <= lo * lo) by (nonlinear_arith)
                requires
                    lo >= 1,
            ;
        }
        assert(lo <= nn);
        assert(isqrt_spec(n as nat) == lo);
    }
    lo as usize
}

/// The engine's unit value for parameter initialization: a weight drawn for a
/// leaf with fan-in `f` lies in `[-unit / sqrt(f), unit / sqrt(f)]` (at least
/// `[-1, 1]`), the standard fan-in scaling expressed over the engine's exact
/// integers.
pub open spec fn init_bound(fan_in: usize) -> i64 {
    let s = isqrt_spec(fan_in as nat);
    let q = 65536int / (s as int);
    if s == 0 || q == 0 {
        1
    } else {
        q as i64
    }
}

/// The initialization bound for a given fan-in.
pub fn init_bound_of(fan_in: usize) -> (r: i64)
    ensures
        r == init_bound(fan_in),
        1 <= r <= 65536,
{
    let s = isqrt(fan_in);
    if s == 0 {
        return 1;
    }
    proof {
        assert(isqrt_spec(fan_in as nat) >= 1);
        assert(1 <= s < 0x1_0000_0000);
        assert(0 <= 65536int / (s as int) <= 65536) by (nonlinear_arith)
            requires
                s >= 1,
        ;
    }
    let q = 65536i64 / (s as i64);
    proof {
        assert(q == 65536int / (s as int));
    }
    if q == 0 {
        1
    } else {
        q
    }
}

/// Whether every element lies within the fan-in initialization bound.
pub open spec fn init_bounded(vals: Seq<i64>, fan_in: usize) -> bool {
    forall|i: int| 0 <= i < vals.len() ==> -init_bound(fan_in) <= #[trigger] vals[i] <= init_bound(
        fan_in,
    )
}

/// View of an executable forward result at the model level.
pub open spec fn res_model(r: Result<Tensor, Error>) -> Result<TensorModel, Error> {
    match r {
        Ok(t) => Ok(t@),
        Err(e) => Err(e),
    }
}

} // verus!

use vstd::arithmetic::div_mod::lemma_fundamental_div_mod_converse;
use vstd::arithmetic::mul::{
    lemma_mul_inequality, lemma_mul_is_commutative, lemma_mul_is_distributive_add,
    lemma_mul_nonnegative,
};
use vstd::prelude::*;

use crate::ops::{is_isqrt, isqrt_spec, lemma_isqrt_spec, lemma_isqrt_unique};

verus! {

broadcast use vstd::std_specs::vec::group_vec_axioms;

/// Wrap-around sum of a value sequence, accumulated left to right.
pub open spec fn wrap_sum(s: Seq<i64>) -> i64
    decreases s.len(),
{
    if s.len() == 0 {
        0
    } else {
        vstd::wrapping::i64_specs::wrapping_add(wrap_sum(s.drop_last()), s.last())
    }
}

/// The squared deviations of a value sequence from `m`.
pub open spec fn csq_seq(s: Seq<i64>, m: i64) -> Seq<i64> {
    Seq::new(
        s.len(),
        |i: int|
            {
                let d = vstd::wrapping::i64_specs::wrapping_sub(s[i], m);
                vstd::wrapping::i64_specs::wrapping_mul(d, d)
            },
    )
}

/// Integer square root over a full machine word.
pub fn isqrt64(n: u64) -> (r: u64)
    ensures
        r == isqrt_spec(n as nat),
        r < 0x1_0000_0000,
{
    let mut lo: u64 = 0;
    let mut hi: u64 = 0x1_0000_0000u64;
    proof {
        assert(n < 0x1_0000_0000int * 0x1_0000_0000int);
    }
    while lo + 1 < hi
        invariant
            0 <= lo < hi <= 0x1_0000_0000u64,
            lo * lo <= n,
            n < hi * hi,
        decreases hi - lo,
    {
        let mid = lo + (hi - lo) / 2;
        proof {
            assert(lo < mid < hi);
            assert(mid * mid < 0x1_0000_0000int * 0x1_0000_0000int) by (nonlinear_arith)
                requires
                    0 <= mid < 0x1_0000_0000u64,
            ;
        }
        let sq: u64 = mid * mid;
        if sq <= n {
            lo = mid;
        } else {
            hi = mid;
        }
    }
    proof {
        assert(is_isqrt(n as nat, lo as nat));
        lemma_isqrt_unique(n as nat, lo as nat);
    }
    lo
}

/// The normalization divisor for a (possibly wrapped) variance-plus-epsilon
/// value: its integer square root, at least one so that dividing is total.
pub open spec fn std_val(sv: i64) -> i64 {
    if sv < 1 {
        1
    } else {
        isqrt_spec(sv as nat) as i64
    }
}

/// Computes the normalization divisor.
pub fn std_of(sv: i64) -> (r: i64)
    ensures
        r == std_val(sv),
        1 <= r <= 0x1_0000_0000,
{
    if sv < 1 {
        1
    } else {
        let s = isqrt64(sv as u64);
        proof {
            lemma_isqrt_spec(sv as nat);
            if isqrt_spec(sv as nat) == 0 {
                assert((0nat + 1) * (0nat + 1) == 1) by (nonlinear_arith);
                assert(sv < 1);
            }
        }
        s as i64
    }
}

/// Wrap-around sum of the contiguous range `[start, start + len)`.
pub fn sum_range(v: &Vec<i64>, start: usize, len: usize) -> (r: i64)
    requires
        start + len <= v@.len(),
    ensures
        r == wrap_sum(v@.subrange(start as int, start + len)),
{
    let ghost s = v@.subrange(start as int, start + len);
    let mut acc: i64 = 0;
    let mut j: usize = 0;
    proof {
        assert(s.subrange(0, 0) =~= Seq::<i64>::empty());
    }
    while j < len
        invariant
            0 <= j <= len,
            start + len <= v@.len(),
            s == v@.subrange(start as int, start + len),
            acc == wrap_sum(s.subrange(0, j as int)),
        decreases len - j,
    {
        proof {
            vstd::std_specs::vec::axiom_spec_len(v);
            assert(s.subrange(0, j + 1).drop_last() =~= s.subrange(0, j as int));
            assert(s.subrange(0, j + 1).last() == v@[start + j]);
        }
        acc = acc.wrapping_add(v[start + j]);
        j += 1;
    }
    proof {
        assert(s.subrange(0, len as int) =~= s);
    }
    acc
}

/// Wrap-around sum of squared deviations from `m` over the contiguous range
/// `[start, start + len)`.
pub fn sum_range_csq(v: &Vec<i64>, start: usize, len: usize, m: i64) -> (r: i64)
    requires
        start + len <= v@.len(),
    ensures
        r == wrap_sum(csq_seq(v@.subrange(start as int, start + len), m)),
{
    let ghost s = csq_seq(v@.subrange(start as int, start + len), m);
    let mut acc: i64 = 0;
    let mut j: usize = 0;
    proof {
        assert(s.subrange(0, 0) =~= Seq::<i64>::empty());
    }
    while j < len
        invariant
            0 <= j <= len,
            start + len <= v@.len(),
            s == csq_seq(v@.subrange(start as int, start + len), m),
            acc == wrap_sum(s.subrange(0, j as int)),
        decreases len - j,
    {
        proof {
            vstd::std_specs::vec::axiom_spec_len(v);
            assert(s.subrange(0, j + 1).drop_last() =~= s.subrange(0, j as int));
            assert(s.subrange(0, j + 1).last() == s[j as int]);
            assert(v@.subrange(start as int, start + len)[j as int] == v@[start + j]);
        }
        let d = v[start + j].wrapping_sub(m);
        acc = acc.wrapping_add(d.wrapping_mul(d));
        j += 1;
    }
    proof {
        assert(s.subrange(0, len as int) =~= s);
    }
    acc
}

/// The elements of channel `c` of a row-major `(bc, cc, inner)` layout, in
/// scan order.
pub open spec fn chan_seq(vals: Seq<i64>, bc: int, cc: int, inner: int, c: int) -> Seq<i64> {
    Seq::new((bc * inner) as nat, |k: int| vals[((k / inner) * cc + c) * inner + (k % inner)])
}

/// The squared deviations of channel `c`'s elements from `m`, in scan order.
pub open spec fn chan_csq_seq(vals: Seq<i64>, bc: int, cc: int, inner: int, c: int, m: i64) -> Seq<
    i64,
> {
    csq_seq(chan_seq(vals, bc, cc, inner, c), m)
}

/// Wrap-around sum over channel `c` of a `(bc, cc, inner)` layout; when `m`
/// is given, of the squared deviations from it instead of the raw values.
fn sum_channel_inner(v: &Vec<i64>, bc: usize, cc: usize, inner: usize, c: usize, m: Option<i64>)
    -> (r: i64)
    requires
        c < cc,
        v@.len() == bc * cc * inner,
    ensures
        m is None ==> r == wrap_sum(chan_seq(v@, bc as int, cc as int, inner as int, c as int)),
        m matches Some(mm) ==> r == wrap_sum(
            chan_csq_seq(v@, bc as int, cc as int, inner as int, c as int, mm),
        ),
{
    let ghost cs = chan_seq(v@, bc as int, cc as int, inner as int, c as int);
    let ghost target = match m {
        None => cs,
        Some(mm) => csq_seq(cs, mm),
    };
    proof {
        lemma_mul_nonnegative(bc as int, inner as int);
        assert(target.subrange(0, 0) =~= Seq::<i64>::empty());
        assert(0 * inner == 0) by (nonlinear_arith);
    }
    if inner == 0 {
        proof {
            assert(bc as int * 0 == 0) by (nonlinear_arith);
            assert(target.subrange(0, 0) =~= target);
        }
        return 0;
    }
    let mut acc: i64 = 0;
    let mut b: usize = 0;
    let mut k: usize = 0;
    while b < bc
        invariant
            0 <= b <= bc,
            k == b * inner,
            c < cc,
            inner >= 1,
            v@.len() == bc * cc * inner,
            cs == chan_seq(v@, bc as int, cc as int, inner as int, c as int),
            target == (match m {
                None => cs,
                Some(mm) => csq_seq(cs, mm),
            }),
            target.len() == bc * inner,
            acc == wrap_sum(target.subrange(0, k as int)),
        decreases bc - b,
    {
        proof {
            vstd::std_specs::vec::axiom_spec_len(v);
            lemma_mul_inequality(b + 1, bc as int, inner as int);
            lemma_mul_is_distributive_add(inner as int, b as int, 1);
            lemma_mul_is_commutative(inner as int, b as int);
            lemma_mul_is_commutative(inner as int, b + 1);
            lemma_mul_nonnegative(b as int, inner as int);
            assert(b * (cc as int) + c + 1 <= bc as int * cc as int) by (nonlinear_arith)
                requires
                    0 <= b < bc,
                    0 <= c < cc,
            ;
            // the channel block's base index lies inside the buffer
            lemma_mul_inequality(b * (cc as int) + c + 1, bc as int * cc as int, inner as int);
            lemma_mul_is_distributive_add(inner as int, b * (cc as int) + c, 1);
            lemma_mul_is_commutative(inner as int, b * (cc as int) + c);
            lemma_mul_is_commutative(inner as int, b * (cc as int) + c + 1);
            lemma_mul_nonnegative(b * (cc as int) + c, inner as int);
            assert((bc as int * cc as int) * inner as int == bc as int * cc as int * inner as int);
            assert(bc as int * inner as int <= bc as int * cc as int * inner as int)
                by (nonlinear_arith)
                requires
                    cc >= 1,
                    bc >= 0,
                    inner >= 0,
            ;
            assert(bc as int * cc as int <= bc as int * cc as int * inner as int)
                by (nonlinear_arith)
                requires
                    inner >= 1,
                    bc >= 0,
                    cc >= 0,
            ;
            lemma_mul_nonnegative(b as int, cc as int);
            assert(b as int * cc as int + c <= bc as int * cc as int) by (nonlinear_arith)
                requires
                    0 <= b < bc,
                    0 <= c < cc,
            ;
            lemma_mul_inequality(
                b * (cc as int) + c,
                b * (cc as int) + c + 1,
                inner as int,
            );
        }
        let base = (b * cc + c) * inner;
        let mut j: usize = 0;
        while j < inner
            invariant
                0 <= j <= inner,
                0 <= b < bc,
                k == b * inner + j,
                c < cc,
                base == (b * (cc as int) + c) * inner,
                base + inner <= v@.len(),
                v@.len() == bc * cc * inner,
                (b + 1) * inner <= bc * inner,
                b * inner + inner == (b + 1) * inner,
                b * inner >= 0,
                cs == chan_seq(v@, bc as int, cc as int, inner as int, c as int),
                target == (match m {
                    None => cs,
                    Some(mm) => csq_seq(cs, mm),
                }),
                target.len() == bc * inner,
                bc * inner <= v@.len(),
                acc == wrap_sum(target.subrange(0, k as int)),
            decreases inner - j,
        {
            proof {
                vstd::std_specs::vec::axiom_spec_len(v);
                lemma_fundamental_div_mod_converse(
                    (b * inner + j) as int,
                    inner as int,
                    b as int,
                    j as int,
                );
                assert(target.subrange(0, k + 1).drop_last() =~= target.subrange(0, k as int));
                assert(target.subrange(0, k + 1).last() == target[k as int]);
                assert(cs[k as int] == v@[(((k as int) / (inner as int)) * cc + c) * inner + ((
                k as int) % (inner as int))]);
                assert(cs[k as int] == v@[base + j]);
            }
            let x = v[base + j];
            let term = match m {
                None => x,
                Some(mm) => {
                    let d = x.wrapping_sub(mm);
                    d.wrapping_mul(d)
                },
            };
            acc = acc.wrapping_add(term);
            j += 1;
            k += 1;
        }
        b += 1;
    }
    proof {
        assert(target.subrange(0, (bc * inner) as int) =~= target);
    }
    acc
}

/// Wrap-around sum of channel `c` in a `(bc, cc, inner)` layout.
pub fn sum_channel(v: &Vec<i64>, bc: usize, cc: usize, inner: usize, c: usize) -> (r: i64)
    requires
        c < cc,
        v@.len() == bc * cc * inner,
    ensures
        r == wrap_sum(chan_seq(v@, bc as int, cc as int, inner as int, c as int)),
{
    sum_channel_inner(v, bc, cc, inner, c, None)
}

/// Wrap-around sum of channel `c`'s squared deviations from `m`.
pub fn sum_channel_csq(v: &Vec<i64>, bc: usize, cc: usize, inner: usize, c: usize, m: i64) -> (r:
    i64)
    requires
        c < cc,
        v@.len() == bc * cc * inner,
    ensures
        r == wrap_sum(chan_csq_seq(v@, bc as int, cc as int, inner as int, c as int, m)),
{
    sum_channel_inner(v, bc, cc, inner, c, Some(m))
}

} // verus!

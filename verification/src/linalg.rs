use vstd::arithmetic::div_mod::lemma_fundamental_div_mod_converse;
use vstd::arithmetic::mul::{
    lemma_mul_inequality, lemma_mul_is_distributive_add, lemma_mul_nonnegative,
};
use vstd::prelude::*;

use crate::error::Error;
use crate::tensor::{numel, shape_fits, Tensor, TensorModel};

verus! {

broadcast use vstd::std_specs::vec::group_vec_axioms;

/// Wrap-around dot product of two equally long value sequences, accumulated
/// left to right.
pub open spec fn dot(a: Seq<i64>, b: Seq<i64>) -> i64
    decreases a.len(),
{
    if a.len() == 0 {
        0
    } else {
        vstd::wrapping::i64_specs::wrapping_add(
            dot(a.drop_last(), b.drop_last()),
            vstd::wrapping::i64_specs::wrapping_mul(a.last(), b.last()),
        )
    }
}

/// Column `j` of a row-major `(k, o)` matrix stored in `vals`.
pub open spec fn col_of(vals: Seq<i64>, k: usize, o: usize, j: int) -> Seq<i64> {
    Seq::new(k as nat, |t: int| vals[t * o + j])
}

/// Row `r` of a row-major matrix of `k` columns stored in `vals`.
pub open spec fn row_of(vals: Seq<i64>, k: usize, r: int) -> Seq<i64> {
    vals.subrange(r * k, r * k + k)
}

/// The shape of a matrix product's result: the input shape with its last
/// (feature) axis replaced by the weight's output size.
pub open spec fn matmul_shape(xs: Seq<usize>, o: usize) -> Seq<usize> {
    xs.update(xs.len() - 1, o)
}

/// The matrix product of `x` (rank 1, 2 or 3; its rows are the vectors to
/// transform) with a rank-2 weight `w` of shape `(k, o)`. Defined exactly
/// when the ranks fit, the feature axes agree, and the result is allocatable.
pub open spec fn matmul_model(x: TensorModel, w: TensorModel) -> Result<TensorModel, Error> {
    if !(1 <= x.shape.len() <= 3) {
        Err(Error::Rank)
    } else if w.shape.len() != 2 || x.shape.last() != w.shape[0] {
        Err(Error::Dim)
    } else if !shape_fits(matmul_shape(x.shape, w.shape[1])) {
        Err(Error::Alloc)
    } else {
        let k = w.shape[0];
        let o = w.shape[1];
        let rows = numel(x.shape.drop_last());
        Ok(
            TensorModel {
                id: 0,
                shape: matmul_shape(x.shape, o),
                vals: Seq::new(
                    (rows * o) as nat,
                    |p: int| dot(row_of(x.vals, k, p / o as int), col_of(w.vals, k, o, p % o as int)),
                ),
                taped: x.taped || w.taped,
            },
        )
    }
}

/// A shape's element count is its row count (the product of all axes but the
/// last) times its last axis.
pub proof fn lemma_numel_split_last(s: Seq<usize>)
    requires
        s.len() >= 1,
    ensures
        numel(s) == numel(s.drop_last()) * s.last(),
{
    assert(s.drop_last().push(s.last()) =~= s);
    crate::tensor::lemma_numel_push(s.drop_last(), s.last());
}

/// A successful matrix product is a well-formed tensor.
pub proof fn lemma_matmul_wf(x: TensorModel, w: TensorModel)
    requires
        x.wf(),
        w.wf(),
    ensures
        matmul_model(x, w) matches Ok(y) ==> y.wf(),
{
    if matmul_model(x, w) is Ok {
        let o = w.shape[1];
        let os = matmul_shape(x.shape, o);
        lemma_numel_split_last(os);
        assert(os.drop_last() =~= x.shape.drop_last());
        crate::tensor::lemma_numel_nonneg(x.shape.drop_last());
        vstd::arithmetic::mul::lemma_mul_nonnegative(numel(x.shape.drop_last()), o as int);
    }
}

/// Prefixes of an allocatable shape are allocatable.
pub proof fn lemma_shape_fits_drop_last(s: Seq<usize>)
    requires
        s.len() >= 1,
        shape_fits(s),
    ensures
        shape_fits(s.drop_last()),
{
    assert forall|i: int| 0 <= i <= s.drop_last().len() implies numel(
        #[trigger] s.drop_last().subrange(0, i),
    ) <= usize::MAX by {
        assert(s.drop_last().subrange(0, i) =~= s.subrange(0, i));
    }
}

/// One wrap-around multiply-accumulate step over gathered operands.
fn dot_step(acc: i64, a: i64, b: i64) -> (r: i64)
    ensures
        r == vstd::wrapping::i64_specs::wrapping_add(
            acc,
            vstd::wrapping::i64_specs::wrapping_mul(a, b),
        ),
{
    acc.wrapping_add(a.wrapping_mul(b))
}

/// The dot product of row `r` of `x` (row-major, `k` columns) with column `j`
/// of `w` (row-major, `(k, o)`).
fn dot_row_col(xv: &Vec<i64>, xbase: usize, wv: &Vec<i64>, k: usize, o: usize, j: usize) -> (r: i64)
    requires
        xbase + k <= xv@.len(),
        wv@.len() == k * o,
        j < o,
    ensures
        r == dot(xv@.subrange(xbase as int, xbase + k), col_of(wv@, k, o, j as int)),
{
    let ghost xrow = xv@.subrange(xbase as int, xbase + k);
    let ghost wcol = col_of(wv@, k, o, j as int);
    let mut acc: i64 = 0;
    let mut t: usize = 0;
    proof {
        assert(xrow.subrange(0, 0) =~= Seq::<i64>::empty());
        assert(wcol.subrange(0, 0) =~= Seq::<i64>::empty());
    }
    while t < k
        invariant
            0 <= t <= k,
            j < o,
            xbase + k <= xv@.len(),
            wv@.len() == k * o,
            xrow == xv@.subrange(xbase as int, xbase + k),
            wcol == col_of(wv@, k, o, j as int),
            acc == dot(xrow.subrange(0, t as int), wcol.subrange(0, t as int)),
        decreases k - t,
    {
        proof {
            // index t * o + j lies inside the (k, o) weight matrix
            lemma_mul_inequality(t + 1, k as int, o as int);
            lemma_mul_is_distributive_add(o as int, t as int, 1);
            lemma_mul_nonnegative(t as int, o as int);
            vstd::std_specs::vec::axiom_spec_len(wv);
            vstd::std_specs::vec::axiom_spec_len(xv);
            assert(t * o + j < k * o);
            assert(xrow.subrange(0, t + 1).drop_last() =~= xrow.subrange(0, t as int));
            assert(wcol.subrange(0, t + 1).drop_last() =~= wcol.subrange(0, t as int));
            assert(xrow.subrange(0, t + 1).last() == xv@[xbase + t]);
            assert(wcol.subrange(0, t + 1).last() == wv@[t * o + j]);
        }
        let wt = t * o + j;
        acc = dot_step(acc, xv[xbase + t], wv[wt]);
        t += 1;
    }
    proof {
        assert(xrow.subrange(0, k as int) =~= xrow);
        assert(wcol.subrange(0, k as int) =~= wcol);
    }
    acc
}

/// Matrix product; errs exactly when the operand ranks or feature axes do not
/// fit or the result is too large to allocate.
pub fn try_matmul(x: &Tensor, w: &Tensor) -> (r: Result<Tensor, Error>)
    requires
        x@.wf(),
        w@.wf(),
    ensures
        crate::ops::res_model(r) == matmul_model(x@, w@),
        r matches Ok(t) ==> t@.wf(),
{
    if x.shape.len() < 1 || x.shape.len() > 3 {
        return Err(Error::Rank);
    }
    if w.shape.len() != 2 || x.shape[x.shape.len() - 1] != w.shape[0] {
        return Err(Error::Dim);
    }
    let k = w.shape[0];
    let o = w.shape[1];
    let mut out_shape = crate::ops::copy_vec(&x.shape);
    let last = out_shape.len() - 1;
    out_shape.set(last, o);
    proof {
        assert(out_shape@ =~= matmul_shape(x@.shape, o));
    }
    let n_out = match crate::tensor::numel_checked(&out_shape) {
        Some(n) => n,
        None => {
            return Err(Error::Alloc);
        },
    };
    let ghost rows_g = numel(x@.shape.drop_last());
    proof {
        lemma_numel_split_last(x@.shape);
        lemma_numel_split_last(out_shape@);
        assert(out_shape@.drop_last() =~= x@.shape.drop_last());
        lemma_shape_fits_drop_last(x@.shape);
        crate::tensor::lemma_numel_nonneg(x@.shape.drop_last());
        // the row count is a prefix product of the input shape, so it fits
        assert(x@.shape.subrange(0, x@.shape.len() - 1) =~= x@.shape.drop_last());
    }
    let rows = match crate::tensor::numel_checked(&x.shape) {
        Some(_) => {
            // recompute the row count from a shape copy without its last axis
            let mut prefix = crate::ops::copy_vec(&x.shape);
            prefix.pop();
            proof {
                assert(prefix@ =~= x@.shape.drop_last());
            }
            match crate::tensor::numel_checked(&prefix) {
                Some(rr) => rr,
                None => {
                    proof {
                        assert(false);
                    }
                    vstd::pervasive::unreached()
                },
            }
        },
        None => {
            proof {
                assert(false);
            }
            vstd::pervasive::unreached()
        },
    };
    let ghost model = match matmul_model(x@, w@) {
        Ok(t) => t,
        Err(_) => vstd::pervasive::arbitrary(),
    };
    proof {
        // the weight's element count is k * o
        assert(w@.shape.drop_first() =~= seq![o]);
        assert(seq![o].drop_first() =~= Seq::<usize>::empty());
        assert(numel(Seq::<usize>::empty()) == 1);
        assert(numel(seq![o]) == o * 1);
        assert(numel(w@.shape) == k * (o * 1));
        assert(k * (o * 1) == k * o) by (nonlinear_arith);
        // the input's element count is rows * k
        assert(x@.shape.last() == k);
        assert(x@.vals.len() == rows_g * k);
        lemma_mul_nonnegative(rows_g, o as int);
        assert(model.vals.len() == rows_g * o);
        assert(rows * o == n_out) by {
            assert(numel(out_shape@) == rows_g * o);
        }
        assert(0 * o == 0) by (nonlinear_arith);
        assert(0 * k == 0) by (nonlinear_arith);
    }
    let ghost model_at = |p: int|
        dot(row_of(x@.vals, k, p / o as int), col_of(w@.vals, k, o, p % o as int));
    proof {
        assert forall|p: int| 0 <= p < rows_g * o implies model.vals[p] == model_at(p) by {
            assert(model.vals[p] == dot(
                row_of(x@.vals, k, p / o as int),
                col_of(w@.vals, k, o, p % o as int),
            ));
        }
    }
    let mut vals: Vec<i64> = Vec::new();
    let mut r: usize = 0;
    while r < rows
        invariant
            0 <= r <= rows,
            rows == rows_g,
            rows * o <= usize::MAX,
            x@.vals.len() == rows * k,
            w@.vals.len() == k * o,
            vals@.len() == r * o,
            model.vals.len() == rows * o,
            forall|p: int| 0 <= p < rows * o ==> model.vals[p] == model_at(p),
            model_at == (|p: int|
                dot(row_of(x@.vals, k, p / o as int), col_of(w@.vals, k, o, p % o as int))),
            forall|p: int| 0 <= p < r * o ==> vals@[p] == model.vals[p],
        decreases rows - r,
    {
        proof {
            lemma_mul_inequality(r + 1, rows as int, k as int);
            lemma_mul_is_distributive_add(k as int, r as int, 1);
            lemma_mul_inequality(r + 1, rows as int, o as int);
            lemma_mul_is_distributive_add(o as int, r as int, 1);
            lemma_mul_nonnegative(r as int, k as int);
            lemma_mul_nonnegative(r as int, o as int);
            vstd::arithmetic::mul::lemma_mul_is_commutative(k as int, r as int);
            vstd::arithmetic::mul::lemma_mul_is_commutative(k as int, r + 1);
            vstd::arithmetic::mul::lemma_mul_is_commutative(o as int, r as int);
            vstd::arithmetic::mul::lemma_mul_is_commutative(o as int, r + 1);
            vstd::std_specs::vec::axiom_spec_len(&x.vals);
        }
        let xbase = r * k;
        let mut j: usize = 0;
        while j < o
            invariant
                0 <= j <= o,
                0 <= r < rows,
                xbase == r * k,
                rows * o <= usize::MAX,
                x@.vals.len() == rows * k,
                w@.vals.len() == k * o,
                (r + 1) * k <= rows * k,
                (r + 1) * o <= rows * o,
                r * k + k == (r + 1) * k,
                r * o + o == (r + 1) * o,
                r * k >= 0,
                r * o >= 0,
                vals@.len() == r * o + j,
                model.vals.len() == rows * o,
                forall|p: int| 0 <= p < rows * o ==> model.vals[p] == model_at(p),
                model_at == (|p: int|
                    dot(row_of(x@.vals, k, p / o as int), col_of(w@.vals, k, o, p % o as int))),
                forall|p: int| 0 <= p < r * o + j ==> vals@[p] == model.vals[p],
            decreases o - j,
        {
            let v = dot_row_col(&x.vals, xbase, &w.vals, k, o, j);
            proof {
                lemma_fundamental_div_mod_converse((r * o + j) as int, o as int, r as int, j as int);
                assert(model.vals[r * o + j] == model_at((r * o + j) as int));
                assert(model_at((r * o + j) as int) == dot(
                    row_of(x@.vals, k, r as int),
                    col_of(w@.vals, k, o, j as int),
                ));
                assert(row_of(x@.vals, k, r as int) =~= x@.vals.subrange(
                    xbase as int,
                    xbase + k,
                ));
            }
            vals.push(v);
            j += 1;
        }
        r += 1;
    }
    proof {
        assert(vals@ =~= model.vals);
    }
    Ok(Tensor { id: 0, shape: out_shape, vals, taped: x.taped || w.taped })
}

} // verus!

use vstd::prelude::*;

verus! {

/// Element-type tag of a serialized record. The engine computes on exact
/// 64-bit integers, so every tensor the library writes is tagged `I64`; the
/// other tags exist so that foreign parameter bags can be represented (and
/// rejected with a precise error where the tree expects integers).
#[derive(Clone, Copy, Debug, PartialEq, Eq, Structural)]
pub enum Dtype {
    Bool,
    F32,
    F64,
    I64,
}

impl Dtype {
    /// Bytes per element of this tag.
    pub open spec fn spec_size(self) -> usize {
        match self {
            Dtype::Bool => 1usize,
            Dtype::F32 => 4usize,
            Dtype::F64 => 8usize,
            Dtype::I64 => 8usize,
        }
    }

    #[verifier::when_used_as_spec(spec_size)]
    pub fn size(self) -> (r: usize)
        ensures
            r == self.spec_size(),
    {
        match self {
            Dtype::Bool => 1,
            Dtype::F32 => 4,
            Dtype::F64 => 8,
            Dtype::I64 => 8,
        }
    }
}

/// Number of elements of a tensor of shape `s`: the product of the dimension
/// sizes; 1 for the empty (scalar) shape.
pub open spec fn numel(s: Seq<usize>) -> int
    decreases s.len(),
{
    if s.len() == 0 {
        1
    } else {
        s[0] * numel(s.drop_first())
    }
}

pub proof fn lemma_numel_nonneg(s: Seq<usize>)
    ensures
        numel(s) >= 0,
    decreases s.len(),
{
    if s.len() > 0 {
        lemma_numel_nonneg(s.drop_first());
        vstd::arithmetic::mul::lemma_mul_nonnegative(s[0] as int, numel(s.drop_first()));
    }
}

/// Whether every prefix product of the shape fits a machine word, so that a
/// left-to-right allocation-size computation cannot overflow.
pub open spec fn shape_fits(s: Seq<usize>) -> bool {
    forall|i: int| 0 <= i <= s.len() ==> numel(#[trigger] s.subrange(0, i)) <= usize::MAX
}

/// Appending a dimension multiplies the element count.
pub proof fn lemma_numel_push(s: Seq<usize>, d: usize)
    ensures
        numel(s.push(d)) == numel(s) * d,
    decreases s.len(),
{
    if s.len() == 0 {
        assert(s.push(d).drop_first() =~= Seq::<usize>::empty());
        assert(s.push(d)[0] == d);
        assert(numel(Seq::<usize>::empty()) == 1);
        assert(numel(s.push(d)) == d * 1);
        assert(d * 1 == 1 * d) by (nonlinear_arith);
    } else {
        assert(s.push(d).drop_first() =~= s.drop_first().push(d));
        lemma_numel_push(s.drop_first(), d);
        assert(s.push(d)[0] == s[0]);
        vstd::arithmetic::mul::lemma_mul_is_associative(
            s[0] as int,
            numel(s.drop_first()),
            d as int,
        );
    }
}

/// Mathematical model of a tensor: its identity, shape, exact integer
/// element values in row-major order, and whether the value is attached to a
/// gradient tape.
#[verifier::ext_equal]
pub struct TensorModel {
    pub id: u64,
    pub shape: Seq<usize>,
    pub vals: Seq<i64>,
    pub taped: bool,
}

impl TensorModel {
    /// The element count matches the shape, and the shape is allocatable.
    pub open spec fn wf(self) -> bool {
        self.vals.len() == numel(self.shape) && shape_fits(self.shape)
    }

    /// A tensor of the given shape with every element equal to `v`, not taped.
    pub open spec fn filled(id: u64, shape: Seq<usize>, v: i64) -> TensorModel {
        TensorModel { id, shape, vals: Seq::new(numel(shape) as nat, |i: int| v), taped: false }
    }

    /// The same tensor with its elements replaced.
    pub open spec fn with_vals(self, vals: Seq<i64>) -> TensorModel {
        TensorModel { vals, ..self }
    }

    /// Equal in everything but the element values (identity, shape and tape
    /// flag agree, and the value count still matches the shape).
    pub open spec fn same_frame(self, other: TensorModel) -> bool {
        &&& self.id == other.id
        &&& self.shape == other.shape
        &&& self.taped == other.taped
        &&& self.vals.len() == other.vals.len()
    }
}

/// A tensor owned by a built module: a uniquely identified (per build)
/// multi-dimensional array of exact 64-bit integers in row-major order.
/// Identity is distinct from value equality: two tensors with the same
/// contents are different parameters when separately allocated.
#[derive(Debug, PartialEq, Eq)]
pub struct Tensor {
    pub id: u64,
    pub shape: Vec<usize>,
    pub vals: Vec<i64>,
    pub taped: bool,
}

impl Clone for Tensor {
    /// A clone is the same tensor, identity included: duplication does not
    /// allocate a new parameter.
    fn clone(&self) -> (r: Self)
        ensures
            r@ == self@,
    {
        Tensor {
            id: self.id,
            shape: crate::ops::copy_vec(&self.shape),
            vals: crate::ops::copy_vec(&self.vals),
            taped: self.taped,
        }
    }
}

impl View for Tensor {
    type V = TensorModel;

    open spec fn view(&self) -> TensorModel {
        TensorModel { id: self.id, shape: self.shape@, vals: self.vals@, taped: self.taped }
    }
}

/// Computes the element count of `shape`, or reports that it does not fit a
/// machine word.
pub fn numel_checked(shape: &Vec<usize>) -> (r: Option<usize>)
    ensures
        r matches Some(n) ==> n == numel(shape@) && shape_fits(shape@),
        r is None ==> !shape_fits(shape@),
{
    let mut acc: usize = 1;
    let mut i: usize = 0;
    proof {
        assert(shape@.subrange(0, 0) =~= Seq::<usize>::empty());
    }
    while i < shape.len()
        invariant
            0 <= i <= shape@.len(),
            acc == numel(shape@.subrange(0, i as int)),
            forall|j: int|
                0 <= j <= i ==> numel(#[trigger] shape@.subrange(0, j)) <= usize::MAX,
        decreases shape@.len() - i,
    {
        proof {
            assert(shape@.subrange(0, i + 1) =~= shape@.subrange(0, i as int).push(
                shape@[i as int],
            ));
            lemma_numel_push(shape@.subrange(0, i as int), shape@[i as int]);
        }
        let d = shape[i];
        match acc.checked_mul(d) {
            Some(p) => {
                acc = p;
            },
            None => {
                return None;
            },
        }
        i += 1;
    }
    proof {
        assert(shape@.subrange(0, shape@.len() as int) =~= shape@);
    }
    Some(acc)
}

/// A fresh tensor of the given shape with every element `v`, or `None` when
/// the allocation size does not fit a machine word.
pub fn tensor_filled(id: u64, shape: Vec<usize>, v: i64) -> (r: Option<Tensor>)
    ensures
        r matches Some(t) ==> t@ == TensorModel::filled(id, shape@, v) && t@.wf(),
        r is None ==> !shape_fits(shape@),
{
    let n = match numel_checked(&shape) {
        Some(n) => n,
        None => {
            return None;
        },
    };
    let mut vals: Vec<i64> = Vec::new();
    let mut i: usize = 0;
    while i < n
        invariant
            0 <= i <= n,
            vals@.len() == i,
            forall|j: int| 0 <= j < i ==> vals@[j] == v,
        decreases n - i,
    {
        vals.push(v);
        i += 1;
    }
    proof {
        lemma_numel_nonneg(shape@);
        assert(vals@ =~= Seq::new(numel(shape@) as nat, |i: int| v));
    }
    Some(Tensor { id, shape, vals, taped: false })
}

/// Overwrites every element with `v` and detaches the value from any tape.
pub fn fill_const(t: &mut Tensor, v: i64)
    requires
        old(t)@.wf(),
    ensures
        final(t)@ == TensorModel::filled(old(t)@.id, old(t)@.shape, v),
        final(t)@.wf(),
{
    let n = t.vals.len();
    let mut vals: Vec<i64> = Vec::new();
    let mut i: usize = 0;
    while i < n
        invariant
            0 <= i <= n,
            vals@.len() == i,
            forall|j: int| 0 <= j < i ==> vals@[j] == v,
        decreases n - i,
    {
        vals.push(v);
        i += 1;
    }
    t.vals = vals;
    t.taped = false;
    proof {
        lemma_numel_nonneg(old(t)@.shape);
        assert(t@.vals =~= Seq::new(numel(old(t)@.shape) as nat, |i: int| v));
        assert(t@ =~= TensorModel::filled(old(t)@.id, old(t)@.shape, v));
    }
}

/// Overwrites every element with zero and detaches the value from any tape.
pub fn zero_fill(t: &mut Tensor)
    requires
        old(t)@.wf(),
    ensures
        final(t)@ == TensorModel::filled(old(t)@.id, old(t)@.shape, 0),
        final(t)@.wf(),
{
    let n = t.vals.len();
    let mut vals: Vec<i64> = Vec::new();
    let mut i: usize = 0;
    while i < n
        invariant
            0 <= i <= n,
            vals@.len() == i,
            forall|j: int| 0 <= j < i ==> vals@[j] == 0i64,
        decreases n - i,
    {
        vals.push(0);
        i += 1;
    }
    t.vals = vals;
    t.taped = false;
    proof {
        lemma_numel_nonneg(old(t)@.shape);
        assert(t@.vals =~= Seq::new(numel(old(t)@.shape) as nat, |i: int| 0i64));
        assert(t@ =~= TensorModel::filled(old(t)@.id, old(t)@.shape, 0));
    }
}

/// Whether two shapes are equal, dimension for dimension.
pub fn shapes_eq(a: &Vec<usize>, b: &Vec<usize>) -> (r: bool)
    ensures
        r == (a@ == b@),
{
    if a.len() != b.len() {
        proof {
            assert(a@.len() != b@.len());
        }
        return false;
    }
    let mut i: usize = 0;
    while i < a.len()
        invariant
            0 <= i <= a@.len(),
            a@.len() == b@.len(),
            forall|j: int| 0 <= j < i ==> a@[j] == b@[j],
        decreases a@.len() - i,
    {
        if a[i] != b[i] {
            return false;
        }
        i += 1;
    }
    proof {
        assert(a@ =~= b@);
    }
    true
}

} // verus!

use vstd::prelude::*;

use crate::base::BuiltModule;
use crate::error::LoadError;
use crate::tensor::{numel, Dtype, Tensor, TensorModel};

verus! {

broadcast use vstd::std_specs::vec::group_vec_axioms;

/// One record of the flattened parameter bag: a slash-joined path of field
/// names from the root, an element-type tag, the shape as an ordered list of
/// dimension sizes, and the raw little-endian bytes of the values in
/// row-major order.
#[derive(Debug)]
pub struct Record {
    pub path: String,
    pub dtype: Dtype,
    pub shape: Vec<usize>,
    pub data: Vec<u8>,
}

/// Model of a flattened record.
#[verifier::ext_equal]
pub struct RecordModel {
    pub path: Seq<char>,
    pub dtype: Dtype,
    pub shape: Seq<usize>,
    pub data: Seq<u8>,
}

impl View for Record {
    type V = RecordModel;

    open spec fn view(&self) -> RecordModel {
        RecordModel { path: self.path@, dtype: self.dtype, shape: self.shape@, data: self.data@ }
    }
}

impl RecordModel {
    /// The byte count matches the shape and tag, and the shape is countable.
    pub open spec fn wf(self) -> bool {
        &&& self.data.len() == numel(self.shape) * self.dtype.spec_size()
        &&& crate::tensor::shape_fits(self.shape)
        &&& numel(self.shape) * self.dtype.spec_size() <= usize::MAX
    }
}

/// The little-endian bytes of a value sequence, eight per element.
pub open spec fn le_bytes_of(vals: Seq<i64>) -> Seq<u8>
    decreases vals.len(),
{
    if vals.len() == 0 {
        Seq::empty()
    } else {
        le_bytes_of(vals.drop_last()) + vstd::bytes::spec_u64_to_le_bytes(vals.last() as u64)
    }
}

/// The values read back from little-endian bytes, eight per element.
pub open spec fn vals_of_le(b: Seq<u8>) -> Seq<i64> {
    Seq::new(
        (b.len() / 8) as nat,
        |i: int| vstd::bytes::spec_u64_from_le_bytes(b.subrange(8 * i, 8 * i + 8)) as i64,
    )
}

/// Eight bytes per element.
pub proof fn lemma_le_bytes_len(vals: Seq<i64>)
    ensures
        le_bytes_of(vals).len() == 8 * vals.len(),
    decreases vals.len(),
{
    vstd::bytes::lemma_auto_spec_u64_to_from_le_bytes();
    if vals.len() > 0 {
        lemma_le_bytes_len(vals.drop_last());
    }
}

/// Reading the written bytes gives the values back: the byte codec is
/// lossless.
pub proof fn lemma_le_bytes_roundtrip(vals: Seq<i64>)
    ensures
        vals_of_le(le_bytes_of(vals)) == vals,
    decreases vals.len(),
{
    vstd::bytes::lemma_auto_spec_u64_to_from_le_bytes();
    lemma_le_bytes_len(vals);
    if vals.len() == 0 {
        assert(vals_of_le(le_bytes_of(vals)) =~= vals);
    } else {
        lemma_le_bytes_roundtrip(vals.drop_last());
        lemma_le_bytes_len(vals.drop_last());
        let b = le_bytes_of(vals);
        let bp = le_bytes_of(vals.drop_last());
        assert forall|i: int| 0 <= i < vals.len() implies vals_of_le(b)[i] == vals[i] by {
            if i < vals.len() - 1 {
                assert(b.subrange(8 * i, 8 * i + 8) =~= bp.subrange(8 * i, 8 * i + 8));
                assert(vals_of_le(bp)[i] == vals.drop_last()[i]);
            } else {
                assert(b.subrange(8 * i, 8 * i + 8) =~= vstd::bytes::spec_u64_to_le_bytes(
                    vals.last() as u64,
                ));
                assert(vstd::bytes::spec_u64_from_le_bytes(
                    vstd::bytes::spec_u64_to_le_bytes(vals.last() as u64),
                ) == vals.last() as u64);
                let ghost lv = vals.last();
                assert((lv as u64) as i64 == lv) by (bit_vector);
            }
        }
        assert(vals_of_le(b) =~= vals);
    }
}

/// Writes the little-endian bytes of a value vector.
pub fn vals_to_bytes(v: &Vec<i64>) -> (r: Vec<u8>)
    requires
        v@.len() * 8 <= usize::MAX,
    ensures
        r@ == le_bytes_of(v@),
{
    let mut out: Vec<u8> = Vec::new();
    let mut i: usize = 0;
    proof {
        assert(v@.subrange(0, 0) =~= Seq::<i64>::empty());
        lemma_le_bytes_len(v@);
    }
    while i < v.len()
        invariant
            0 <= i <= v@.len(),
            v@.len() * 8 <= usize::MAX,
            out@ == le_bytes_of(v@.subrange(0, i as int)),
        decreases v@.len() - i,
    {
        let mut bs = vstd::bytes::u64_to_le_bytes(v[i] as u64);
        out.append(&mut bs);
        proof {
            assert(v@.subrange(0, i + 1).drop_last() =~= v@.subrange(0, i as int));
            assert(v@.subrange(0, i + 1).last() == v@[i as int]);
        }
        i += 1;
    }
    proof {
        assert(v@.subrange(0, v@.len() as int) =~= v@);
    }
    out
}

/// Reads a value vector back from little-endian bytes; the byte count must be
/// a multiple of eight.
pub fn bytes_to_vals(b: &Vec<u8>) -> (r: Option<Vec<i64>>)
    ensures
        b@.len() % 8 == 0 ==> (r matches Some(v) && v@ == vals_of_le(b@)),
        b@.len() % 8 != 0 ==> r is None,
{
    let len = b.len();
    if len % 8 != 0 {
        return None;
    }
    let n = len / 8;
    let mut out: Vec<i64> = Vec::new();
    let mut i: usize = 0;
    while i < n
        invariant
            0 <= i <= n,
            n == b@.len() / 8,
            b@.len() % 8 == 0,
            n * 8 == b@.len(),
            out@.len() == i,
            forall|j: int| 0 <= j < i ==> out@[j] == vals_of_le(b@)[j],
        decreases n - i,
    {
        proof {
            vstd::std_specs::vec::axiom_spec_len(b);
            vstd::arithmetic::mul::lemma_mul_inequality(i + 1, n as int, 8);
            vstd::arithmetic::mul::lemma_mul_is_distributive_add(8, i as int, 1);
            vstd::arithmetic::mul::lemma_mul_is_commutative(8, i as int);
            vstd::arithmetic::mul::lemma_mul_is_commutative(8, i + 1);
            vstd::arithmetic::mul::lemma_mul_nonnegative(i as int, 8);
            vstd::arithmetic::mul::lemma_mul_is_commutative(8, n as int);
        }
        let start = i * 8;
        let sl = vstd::slice::slice_subrange(b.as_slice(), start, start + 8);
        let x = vstd::bytes::u64_from_le_bytes(sl);
        proof {
            assert(sl@ =~= b@.subrange(8 * i, 8 * i + 8));
        }
        out.push(x as i64);
        i += 1;
    }
    proof {
        assert(out@ =~= vals_of_le(b@));
    }
    Some(out)
}

/// The first record whose path equals `path`, if any.
pub open spec fn find_rec(rs: Seq<RecordModel>, path: Seq<char>) -> Option<RecordModel>
    decreases rs.len(),
{
    if rs.len() == 0 {
        None
    } else if rs[0].path == path {
        Some(rs[0])
    } else {
        find_rec(rs.drop_first(), path)
    }
}

/// Whether two strings hold the same characters.
pub fn str_eq(a: &str, b: &str) -> (r: bool)
    ensures
        r == (a@ == b@),
{
    let la = a.unicode_len();
    let lb = b.unicode_len();
    if la != lb {
        return false;
    }
    let mut i: usize = 0;
    while i < la
        invariant
            0 <= i <= la,
            la == a@.len(),
            la == b@.len(),
            forall|j: int| 0 <= j < i ==> a@[j] == b@[j],
        decreases la - i,
    {
        if a.get_char(i) != b.get_char(i) {
            return false;
        }
        i += 1;
    }
    proof {
        assert(a@ =~= b@);
    }
    true
}

/// Looks up the first record with the given path.
pub fn find_record<'a>(recs: &'a Vec<Record>, path: &str) -> (r: Option<&'a Record>)
    ensures
        match r {
            Some(rec) => find_rec(crate::vecs::views_of(recs@), path@) == Some(rec@),
            None => find_rec(crate::vecs::views_of(recs@), path@) is None,
        },
{
    let ghost rs = crate::vecs::views_of(recs@);
    proof {
        assert(rs.skip(0) =~= rs);
    }
    let mut i: usize = 0;
    while i < recs.len()
        invariant
            0 <= i <= recs@.len(),
            rs == crate::vecs::views_of(recs@),
            find_rec(rs, path@) == find_rec(rs.skip(i as int), path@),
        decreases recs@.len() - i,
    {
        proof {
            assert(rs.skip(i as int)[0] == recs@[i as int]@);
            assert(rs.skip(i as int).drop_first() =~= rs.skip(i + 1));
        }
        if str_eq(recs[i].path.as_str(), path) {
            return Some(&recs[i]);
        }
        i += 1;
    }
    proof {
        assert(rs.skip(recs@.len() as int) =~= Seq::<RecordModel>::empty());
    }
    None
}

/// The record a parameter leaf flattens to, keyed by the slash-joined path.
pub open spec fn rec_of_tensor(path: Seq<char>, t: TensorModel) -> RecordModel {
    RecordModel { path, dtype: Dtype::I64, shape: t.shape, data: le_bytes_of(t.vals) }
}

/// Flatten: a depth-first traversal emitting one record per parameter leaf,
/// keyed by the slash-joined path of field names from the root.
pub trait SaveSafeTensors: BuiltModule {
    /// The records of this subtree, with `loc` as the path prefix.
    spec fn recs_of(v: Self::V, loc: Seq<char>) -> Seq<RecordModel>;

    /// Whether every leaf's byte payload is countable on the machine.
    spec fn bytes_fit(v: Self::V) -> bool;

    /// Appends this subtree's records to `out`.
    fn write_safetensors(&self, loc: &str, out: &mut Vec<Record>)
        requires
            Self::v_wf(self@),
            Self::bytes_fit(self@),
        ensures
            crate::vecs::views_of(final(out)@) == crate::vecs::views_of(old(out)@) + Self::recs_of(
                self@,
                loc@,
            ),
    ;
}

/// Unflatten: the inverse walk. Each parameter leaf looks its path up in the
/// record set and overwrites its contents; a missing path, a wrong element
/// type or a wrong shape is a hard error, and the walk stops at the first
/// failure, leaving later leaves untouched.
pub trait LoadSafeTensors: BuiltModule {
    /// Model of one load walk: the tree afterwards and its outcome.
    spec fn load_model(v: Self::V, recs: Seq<RecordModel>, loc: Seq<char>) -> (
        Self::V,
        Result<(), LoadError>,
    );

    fn read_safetensors(&mut self, loc: &str, recs: &Vec<Record>) -> (r: Result<(), LoadError>)
        requires
            Self::v_wf(old(self)@),
        ensures
            (final(self)@, r) == Self::load_model(
                old(self)@,
                crate::vecs::views_of(recs@),
                loc@,
            ),
            Self::v_wf(final(self)@),
    ;
}

/// Model of loading one parameter leaf: the looked-up record must exist,
/// carry the integer tag and the leaf's exact shape; the leaf's values are
/// then overwritten by the record's decoded bytes.
pub open spec fn load_leaf(t: TensorModel, recs: Seq<RecordModel>, path: Seq<char>) -> (
    TensorModel,
    Result<(), LoadError>,
) {
    match find_rec(recs, path) {
        None => (t, Err(LoadError::MissingPath)),
        Some(rec) => {
            if rec.dtype != Dtype::I64 {
                (t, Err(LoadError::DtypeMismatch))
            } else if rec.shape != t.shape || rec.data.len() != 8 * t.vals.len() {
                (t, Err(LoadError::ShapeMismatch))
            } else {
                (t.with_vals(vals_of_le(rec.data)), Ok(()))
            }
        },
    }
}

/// Loads one parameter leaf from the record set.
pub fn read_leaf(t: &mut Tensor, recs: &Vec<Record>, path: &String) -> (r: Result<(), LoadError>)
    requires
        old(t)@.wf(),
    ensures
        (final(t)@, r) == load_leaf(old(t)@, crate::vecs::views_of(recs@), path@),
        final(t)@.wf(),
        final(t)@.same_frame(old(t)@) || final(t)@ == old(t)@,
{
    let rec = match find_record(recs, path.as_str()) {
        Some(rec) => rec,
        None => {
            return Err(LoadError::MissingPath);
        },
    };
    match rec.dtype {
        Dtype::I64 => {},
        _ => {
            return Err(LoadError::DtypeMismatch);
        },
    }
    if !crate::tensor::shapes_eq(&rec.shape, &t.shape) {
        return Err(LoadError::ShapeMismatch);
    }
    if rec.data.len() % 8 != 0 || rec.data.len() / 8 != t.vals.len() {
        proof {
            vstd::arithmetic::div_mod::lemma_fundamental_div_mod(rec@.data.len() as int, 8);
        }
        return Err(LoadError::ShapeMismatch);
    }
    proof {
        vstd::arithmetic::div_mod::lemma_fundamental_div_mod(rec@.data.len() as int, 8);
        assert(rec@.data.len() == 8 * old(t)@.vals.len());
    }
    let vals = match bytes_to_vals(&rec.data) {
        Some(v) => v,
        None => {
            proof {
                assert(rec@.data.len() % 8 == 0) by {
                    assert(rec@.data.len() == 8 * t@.vals.len());
                    assert((8 * t@.vals.len()) % 8 == 0) by (nonlinear_arith);
                }
                assert(false);
            }
            vstd::pervasive::unreached()
        },
    };
    proof {
        let ghost tl = old(t)@.vals.len() as int;
        assert(vals@.len() == old(t)@.vals.len()) by {
            assert(rec@.data.len() == 8 * tl);
            assert((8 * tl) / 8 == tl) by (nonlinear_arith);
        }
    }
    t.vals = vals;
    proof {
        assert(t@ =~= load_leaf(old(t)@, crate::vecs::views_of(recs@), path@).0);
    }
    Ok(())
}

/// Joins a path prefix with a field name.
pub fn join_path(loc: &str, name: &str) -> (r: String)
    ensures
        r@ == loc@ + name@,
{
    let mut s = <String as vstd::string::StringExecFns>::from_str(loc);
    vstd::string::StringExecFns::append(&mut s, name);
    s
}


/// Whether a tensor's byte payload is countable on the machine.
pub fn leaf_fits(t: &Tensor) -> (r: bool)
    ensures
        r == (t@.vals.len() * 8 <= usize::MAX),
{
    let r = t.vals.len() <= usize::MAX / 8;
    proof {
        vstd::std_specs::vec::axiom_spec_len(&t.vals);
        let l = t@.vals.len() as int;
        let m = usize::MAX as int;
        vstd::arithmetic::div_mod::lemma_fundamental_div_mod(m, 8);
        if l <= m / 8 {
            vstd::arithmetic::mul::lemma_mul_inequality(l, m / 8, 8);
            vstd::arithmetic::mul::lemma_mul_is_commutative(l, 8);
            vstd::arithmetic::mul::lemma_mul_is_commutative(m / 8, 8);
        } else {
            assert(l * 8 > m) by (nonlinear_arith)
                requires
                    l > m / 8,
                    m == 8 * (m / 8) + m % 8,
                    0 <= m % 8 < 8,
            ;
        }
    }
    r
}

/// Emits one parameter leaf's record, keyed by the joined path.
pub fn write_leaf(t: &Tensor, loc: &str, name: &str, out: &mut Vec<Record>)
    requires
        t@.wf(),
        t@.vals.len() * 8 <= usize::MAX,
    ensures
        crate::vecs::views_of(final(out)@) == crate::vecs::views_of(old(out)@) + seq![
            rec_of_tensor(loc@ + name@, t@),
        ],
{
    let path = join_path(loc, name);
    let data = vals_to_bytes(&t.vals);
    let rec = Record { path, dtype: Dtype::I64, shape: crate::ops::copy_vec(&t.shape), data };
    proof {
        assert(rec@ =~= rec_of_tensor(loc@ + name@, t@));
    }
    out.push(rec);
    proof {
        assert(crate::vecs::views_of(final(out)@) =~= crate::vecs::views_of(old(out)@) + seq![
            rec_of_tensor(loc@ + name@, t@),
        ]);
    }
}

/// A leaf's record is well-formed and integer-tagged.
pub proof fn lemma_rec_of_tensor_wf(path: Seq<char>, t: TensorModel)
    requires
        t.wf(),
        t.vals.len() * 8 <= usize::MAX,
    ensures
        rec_of_tensor(path, t).wf(),
        rec_of_tensor(path, t).dtype == Dtype::I64,
{
    lemma_le_bytes_len(t.vals);
    vstd::arithmetic::mul::lemma_mul_is_commutative(8, t.vals.len() as int);
}

/// Loading the record a leaf wrote restores the leaf exactly: the per-leaf
/// round trip of the flatten and unflatten walks.
pub proof fn lemma_leaf_roundtrip(t: TensorModel, fresh: TensorModel, path: Seq<char>)
    requires
        t.wf(),
        fresh.wf(),
        fresh.shape == t.shape,
    ensures
        load_leaf(fresh, seq![rec_of_tensor(path, t)], path) == (
            fresh.with_vals(t.vals),
            Ok::<(), LoadError>(()),
        ),
{
    let rec = rec_of_tensor(path, t);
    assert(find_rec(seq![rec], path) == Some(rec));
    lemma_le_bytes_len(t.vals);
    lemma_le_bytes_roundtrip(t.vals);
    assert(load_leaf(fresh, seq![rec], path).0 =~= fresh.with_vals(t.vals));
}


/// The decimal digit character of `d`.
pub open spec fn digit_char(d: nat) -> char {
    if d == 0 {
        '0'
    } else if d == 1 {
        '1'
    } else if d == 2 {
        '2'
    } else if d == 3 {
        '3'
    } else if d == 4 {
        '4'
    } else if d == 5 {
        '5'
    } else if d == 6 {
        '6'
    } else if d == 7 {
        '7'
    } else if d == 8 {
        '8'
    } else {
        '9'
    }
}

/// The decimal rendering of `n`, most significant digit first.
pub open spec fn dec_str(n: nat) -> Seq<char>
    decreases n,
{
    if n < 10 {
        seq![digit_char(n)]
    } else {
        dec_str(n / 10) + seq![digit_char(n % 10)]
    }
}

/// One decimal digit as a string slice.
fn digit_str(d: u64) -> (r: &'static str)
    requires
        d < 10,
    ensures
        r@ == seq![digit_char(d as nat)],
{
    proof {
        reveal_strlit("0");
        reveal_strlit("1");
        reveal_strlit("2");
        reveal_strlit("3");
        reveal_strlit("4");
        reveal_strlit("5");
        reveal_strlit("6");
        reveal_strlit("7");
        reveal_strlit("8");
        reveal_strlit("9");
    }
    match d {
        0 => "0",
        1 => "1",
        2 => "2",
        3 => "3",
        4 => "4",
        5 => "5",
        6 => "6",
        7 => "7",
        8 => "8",
        _ => "9",
    }
}

/// Renders `n` in decimal.
pub fn dec_digits(n: u64) -> (r: String)
    ensures
        r@ == dec_str(n as nat),
    decreases n,
{
    if n < 10 {
        <String as vstd::string::StringExecFns>::from_str(digit_str(n))
    } else {
        let mut s = dec_digits(n / 10);
        vstd::string::StringExecFns::append(&mut s, digit_str(n % 10));
        s
    }
}

} // verus!

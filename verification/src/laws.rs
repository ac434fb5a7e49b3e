use vstd::prelude::*;

use crate::base::{ids_increasing, shapes_of, upd_fold, zg_fold, BuildOnDevice,
    BuiltModule, Module, Optimizer};
use crate::generalized_add::{GeneralizedAdd, GeneralizedAddV};
use crate::ops::add_model;
use crate::residual_add::{ResidualAdd, ResidualAddV};
use crate::grads::zero_of;
use crate::linear::{DeviceLinear, DeviceLinearV};
use crate::serialize::{LoadSafeTensors, SaveSafeTensors};
use crate::tensor::TensorModel;

verus! {

/// Structural determinism of building: one configuration built twice (with
/// different identifier counters, as two builds on one device have) yields
/// trees of identical field structure and tensor shapes.
pub proof fn lemma_structural_determinism<B: BuildOnDevice>(cfg: &B, a: u64, b: u64)
    requires
        cfg.c_wf(),
        cfg.can_alloc(),
    ensures
        shapes_of(<B::Built as BuiltModule>::tensors_of(cfg.built_model(a))) == shapes_of(
            <B::Built as BuiltModule>::tensors_of(cfg.built_model(b)),
        ),
        shapes_of(<B::Built as BuiltModule>::params_of(cfg.built_model(a))) == shapes_of(
            <B::Built as BuiltModule>::params_of(cfg.built_model(b)),
        ),
        <B::Built as BuiltModule>::v_wf(cfg.built_model(a)),
{
    cfg.lemma_build_deterministic(a, b);
}

/// Freshness of building: two builds of one configuration whose identifier
/// ranges do not overlap (as two successive builds on one device have) yield
/// trees whose tensors carry pairwise-distinct identities across the builds.
pub proof fn lemma_build_fresh_identities<B: BuildOnDevice>(cfg: &B, a: u64, b: u64)
    requires
        cfg.c_wf(),
        cfg.can_alloc(),
        a + cfg.n_ids() <= b,
        b + cfg.n_ids() <= u64::MAX,
    ensures
        forall|i: int, j: int|
            0 <= i < <B::Built as BuiltModule>::tensors_of(cfg.built_model(a)).len() && 0 <= j
                < <B::Built as BuiltModule>::tensors_of(cfg.built_model(b)).len()
                ==> (#[trigger] <B::Built as BuiltModule>::tensors_of(cfg.built_model(a))[i]).id
                != (#[trigger] <B::Built as BuiltModule>::tensors_of(cfg.built_model(b))[j]).id,
{
    cfg.lemma_build_deterministic(a, b);
    cfg.lemma_build_deterministic(b, a);
}

/// The parameter leaves of one built tree carry pairwise-distinct
/// identities: what the exactness of the update and zero-gradient passes
/// rests on, recorded once for every configuration.
pub proof fn lemma_built_params_distinct<B: BuildOnDevice>(cfg: &B, a: u64)
    requires
        cfg.c_wf(),
        cfg.can_alloc(),
        a + cfg.n_ids() <= u64::MAX,
    ensures
        forall|i: int, j: int|
            0 <= i < j < <B::Built as BuiltModule>::params_of(cfg.built_model(a)).len()
                ==> (#[trigger] <B::Built as BuiltModule>::params_of(cfg.built_model(a))[i]).id
                != (#[trigger] <B::Built as BuiltModule>::params_of(cfg.built_model(a))[j]).id,
        ids_increasing(<B::Built as BuiltModule>::params_of(cfg.built_model(a))),
        ids_increasing(<B::Built as BuiltModule>::tensors_of(cfg.built_model(a))),
{
    cfg.lemma_build_deterministic(a, a);
}

/// Sequential composition is the manual left-to-right chain: the forward of a
/// module list applied to `x` is module one's forward fed into module two's,
/// and so on, failing fast; the empty list is the identity.
pub proof fn lemma_sequential_is_manual_chain<T: Module>(v: Seq<T::V>, x: TensorModel)
    ensures
        v.len() == 0 ==> crate::vecs::chain_fwd::<T>(v, x) == Ok::<TensorModel, crate::error::Error>(
            x,
        ),
        v.len() > 0 ==> crate::vecs::chain_fwd::<T>(v, x) == (match T::fwd_of(v[0], x) {
            Ok(y) => crate::vecs::chain_fwd::<T>(v.drop_first(), y),
            Err(e) => Err(e),
        }),
{
}

/// The residual combinator's forward is the input plus the branch's forward,
/// for every valid input (and fails exactly when the branch does or the
/// shapes cannot be added).
pub proof fn lemma_residual_add_forward<T: Module>(v: ResidualAddV<T::V>, x: TensorModel)
    ensures
        ResidualAdd::<T>::fwd_of(v, x) == (match T::fwd_of(v.0, x) {
            Ok(y) => add_model(x, y),
            Err(e) => Err(e),
        }),
{
}

/// The two-branch combinator's forward is the sum of both branches' forwards
/// on independent copies of the input — whatever parameters the branches
/// hold, shared or not, the formula depends only on their forward models.
pub proof fn lemma_generalized_add_forward<T: Module, U: Module>(
    v: GeneralizedAddV<T::V, U::V>,
    x: TensorModel,
)
    ensures
        GeneralizedAdd::<T, U>::fwd_of(v, x) == (match T::fwd_of(v.0, x) {
            Ok(a) => match U::fwd_of(v.1, x) {
                Ok(b) => add_model(a, b),
                Err(e) => Err(e),
            },
            Err(e) => Err(e),
        }),
{
}

/// The identities of the parameters that have no gradient entry, in tree
/// order.
pub open spec fn missing_ids(ps: Seq<TensorModel>, g: Map<u64, TensorModel>) -> Seq<u64>
    decreases ps.len(),
{
    if ps.len() == 0 {
        Seq::empty()
    } else if g.contains_key(ps[0].id) {
        missing_ids(ps.drop_first(), g)
    } else {
        seq![ps[0].id] + missing_ids(ps.drop_first(), g)
    }
}

/// Exactness of the update pass: over parameters `ps` and a gradient table
/// `g`, the pass modifies exactly the parameters with entries (one optimizer
/// step each), leaves every other parameter bit-identical, and reports
/// exactly the identities without entries, in visit order.
pub proof fn lemma_update_exact<O: Optimizer>(
    o: O::V,
    ps: Seq<TensorModel>,
    g: Map<u64, TensorModel>,
    miss: Seq<u64>,
)
    ensures
        ({
            let (of, ps2, m2) = upd_fold::<O>(o, ps, g, miss);
            &&& ps2.len() == ps.len()
            &&& forall|i: int|
                0 <= i < ps.len() && !g.contains_key((#[trigger] ps[i]).id) ==> ps2[i] == ps[i]
            &&& m2 == miss + missing_ids(ps, g)
        }),
    decreases ps.len(),
{
    let (of, ps2, m2) = upd_fold::<O>(o, ps, g, miss);
    if ps.len() == 0 {
        assert(m2 =~= miss + missing_ids(ps, g));
    } else {
        let p = ps[0];
        if g.contains_key(p.id) {
            let (o1, t1) = O::step(o, p, g[p.id]);
            lemma_update_exact::<O>(o1, ps.drop_first(), g, miss);
            let (ox, rest, mx) = upd_fold::<O>(o1, ps.drop_first(), g, miss);
            assert forall|i: int|
                0 <= i < ps.len() && !g.contains_key((#[trigger] ps[i]).id) implies ps2[i]
                == ps[i] by {
                assert(ps2[i] == rest[i - 1]);
                assert(ps.drop_first()[i - 1] == ps[i]);
            }
        } else {
            lemma_update_exact::<O>(o, ps.drop_first(), g, miss.push(p.id));
            let (ox, rest, mx) = upd_fold::<O>(o, ps.drop_first(), g, miss.push(p.id));
            assert forall|i: int|
                0 <= i < ps.len() && !g.contains_key((#[trigger] ps[i]).id) implies ps2[i]
                == ps[i] by {
                if i == 0 {
                    assert(ps2[0] == p);
                } else {
                    assert(ps2[i] == rest[i - 1]);
                    assert(ps.drop_first()[i - 1] == ps[i]);
                }
            }
            assert(m2 =~= miss + missing_ids(ps, g)) by {
                assert(mx =~= (miss.push(p.id)) + missing_ids(ps.drop_first(), g));
                assert(missing_ids(ps, g) == seq![p.id] + missing_ids(ps.drop_first(), g));
            }
        }
    }
}

/// The identities a zero-gradient pass touches.
pub open spec fn param_ids(ps: Seq<TensorModel>) -> Set<u64>
    decreases ps.len(),
{
    if ps.len() == 0 {
        Set::empty()
    } else {
        param_ids(ps.drop_first()).insert(ps[0].id)
    }
}

/// A zero-gradient pass leaves entries of other identities untouched.
pub proof fn lemma_zg_frame(ps: Seq<TensorModel>, g: Map<u64, TensorModel>, k: u64)
    requires
        !param_ids(ps).contains(k),
    ensures
        zg_fold(ps, g).contains_key(k) == g.contains_key(k),
        g.contains_key(k) ==> zg_fold(ps, g)[k] == g[k],
    decreases ps.len(),
{
    if ps.len() > 0 {
        lemma_zg_frame(ps.drop_first(), g.insert(ps[0].id, zero_of(ps[0])), k);
    }
}

/// The entry a zero-gradient pass installs for a visited identity depends on
/// the parameters alone, not on the table it started from.
pub proof fn lemma_zg_determined(
    ps: Seq<TensorModel>,
    g1: Map<u64, TensorModel>,
    g2: Map<u64, TensorModel>,
    k: u64,
)
    requires
        param_ids(ps).contains(k),
    ensures
        zg_fold(ps, g1).contains_key(k),
        zg_fold(ps, g1)[k] == zg_fold(ps, g2)[k],
    decreases ps.len(),
{
    if ps.len() > 0 {
        let p = ps[0];
        if param_ids(ps.drop_first()).contains(k) {
            lemma_zg_determined(
                ps.drop_first(),
                g1.insert(p.id, zero_of(p)),
                g2.insert(p.id, zero_of(p)),
                k,
            );
        } else {
            assert(k == p.id);
            lemma_zg_frame(ps.drop_first(), g1.insert(p.id, zero_of(p)), k);
            lemma_zg_frame(ps.drop_first(), g2.insert(p.id, zero_of(p)), k);
        }
    }
}

/// A zero-gradient pass's domain is the old domain plus the visited
/// identities.
pub proof fn lemma_zg_domain(ps: Seq<TensorModel>, g: Map<u64, TensorModel>)
    ensures
        zg_fold(ps, g).dom() == g.dom() + param_ids(ps),
    decreases ps.len(),
{
    if ps.len() == 0 {
        assert(zg_fold(ps, g).dom() =~= g.dom() + param_ids(ps));
    } else {
        let p = ps[0];
        lemma_zg_domain(ps.drop_first(), g.insert(p.id, zero_of(p)));
        assert(zg_fold(ps, g).dom() =~= g.dom() + param_ids(ps));
    }
}

/// Which identities a parameter list holds.
pub proof fn lemma_param_ids_contains(ps: Seq<TensorModel>, k: u64)
    ensures
        param_ids(ps).contains(k) <==> exists|i: int| 0 <= i < ps.len() && (#[trigger] ps[i]).id
            == k,
    decreases ps.len(),
{
    if ps.len() > 0 {
        lemma_param_ids_contains(ps.drop_first(), k);
        if param_ids(ps).contains(k) {
            if k != ps[0].id {
                let i = choose|i: int|
                    0 <= i < ps.drop_first().len() && (#[trigger] ps.drop_first()[i]).id == k;
                assert(ps[i + 1].id == k);
            }
        }
        if exists|i: int| 0 <= i < ps.len() && (#[trigger] ps[i]).id == k {
            let i = choose|i: int| 0 <= i < ps.len() && (#[trigger] ps[i]).id == k;
            if i > 0 {
                assert(ps.drop_first()[i - 1].id == k);
            }
        }
    }
}

/// Contents of the zero-gradient pass: when the parameter leaves carry
/// pairwise-distinct identities (as every built tree's do), the resulting
/// table maps each leaf's identity to its freshly zero-filled gradient.
pub proof fn lemma_zero_grads_contents(ps: Seq<TensorModel>, g: Map<u64, TensorModel>)
    requires
        ids_increasing(ps),
    ensures
        forall|i: int|
            0 <= i < ps.len() ==> zg_fold(ps, g).contains_key((#[trigger] ps[i]).id) && zg_fold(
                ps,
                g,
            )[ps[i].id] == zero_of(ps[i]),
    decreases ps.len(),
{
    if ps.len() > 0 {
        let p = ps[0];
        let g1 = g.insert(p.id, zero_of(p));
        assert(ids_increasing(ps.drop_first())) by {
            assert(forall|i: int|
                0 <= i < ps.drop_first().len() ==> ps.drop_first()[i] == ps[i + 1]);
        }
        lemma_zero_grads_contents(ps.drop_first(), g1);
        // the head's identity never recurs, so its entry survives the tail
        assert(!param_ids(ps.drop_first()).contains(p.id)) by {
            lemma_param_ids_contains(ps.drop_first(), p.id);
            if exists|i: int|
                0 <= i < ps.drop_first().len() && (#[trigger] ps.drop_first()[i]).id == p.id {
                let i = choose|i: int|
                    0 <= i < ps.drop_first().len() && (#[trigger] ps.drop_first()[i]).id == p.id;
                assert(ps[i + 1].id == ps[0].id);
            }
        }
        lemma_zg_frame(ps.drop_first(), g1, p.id);
        assert forall|i: int| 0 <= i < ps.len() implies zg_fold(ps, g).contains_key(
            (#[trigger] ps[i]).id,
        ) && zg_fold(ps, g)[ps[i].id] == zero_of(ps[i]) by {
            if i > 0 {
                assert(ps.drop_first()[i - 1] == ps[i]);
            }
        }
    }
}

/// Idempotence of the zero-gradient pass: running it twice produces the same
/// gradient table as running it once.
pub proof fn lemma_zero_grads_idempotent(ps: Seq<TensorModel>, g: Map<u64, TensorModel>)
    ensures
        zg_fold(ps, zg_fold(ps, g)) == zg_fold(ps, g),
{
    let once = zg_fold(ps, g);
    let twice = zg_fold(ps, once);
    lemma_zg_domain(ps, g);
    lemma_zg_domain(ps, once);
    assert forall|k: u64| twice.contains_key(k) implies once.contains_key(k) && #[trigger] twice[k]
        == once[k] by {
        if param_ids(ps).contains(k) {
            lemma_zg_determined(ps, once, g, k);
        } else {
            lemma_zg_frame(ps, once, k);
        }
    }
    assert(twice =~= once);
}


/// Serialization round trip for a single-parameter leaf: loading the record
/// a weight-matrix module wrote into a fresh module of the same shape
/// restores the values, and flattening again reproduces the record.
pub proof fn lemma_matmul_roundtrip(
    t: crate::matmul::DeviceMatMulV,
    fresh: crate::matmul::DeviceMatMulV,
    loc: Seq<char>,
)
    requires
        crate::matmul::DeviceMatMul::v_wf(t),
        crate::matmul::DeviceMatMul::v_wf(fresh),
        fresh.weight.shape == t.weight.shape,
    ensures
        ({
            let recs = crate::matmul::DeviceMatMul::recs_of(t, loc);
            let (loaded, r) = crate::matmul::DeviceMatMul::load_model(fresh, recs, loc);
            &&& r == Ok::<(), crate::error::LoadError>(())
            &&& loaded.weight.vals == t.weight.vals
            &&& crate::matmul::DeviceMatMul::recs_of(loaded, loc) == recs
        }),
{
    let path = loc + "weight"@;
    let rec = crate::serialize::rec_of_tensor(path, t.weight);
    let recs = crate::matmul::DeviceMatMul::recs_of(t, loc);
    assert(recs =~= seq![rec]);
    assert(crate::serialize::find_rec(recs, path) == Some(rec));
    crate::serialize::lemma_le_bytes_len(t.weight.vals);
    crate::serialize::lemma_le_bytes_roundtrip(t.weight.vals);
    let (loaded, r) = crate::matmul::DeviceMatMul::load_model(fresh, recs, loc);
    assert(fresh.weight.vals.len() == t.weight.vals.len());
    assert(loaded.weight.vals =~= t.weight.vals);
    assert(crate::matmul::DeviceMatMul::recs_of(loaded, loc) =~= recs) by {
        assert(crate::serialize::rec_of_tensor(path, loaded.weight) =~= rec);
    }
}

/// Serialization round trip for a linear layer: flattening a tree, loading
/// the records into a freshly built (uninitialized) tree of the same
/// configuration, and flattening again reproduces the records byte for byte,
/// and the loaded parameters carry the original values exactly.
pub proof fn lemma_linear_roundtrip(t: DeviceLinearV, fresh: DeviceLinearV, loc: Seq<char>)
    requires
        DeviceLinear::v_wf(t),
        DeviceLinear::v_wf(fresh),
        fresh.matmul.weight.shape == t.matmul.weight.shape,
        fresh.bias.bias.shape == t.bias.bias.shape,
    ensures
        ({
            let recs = DeviceLinear::recs_of(t, loc);
            let (loaded, r) = DeviceLinear::load_model(fresh, recs, loc);
            &&& r == Ok::<(), crate::error::LoadError>(())
            &&& DeviceLinear::recs_of(loaded, loc) == recs
            &&& loaded.matmul.weight.vals == t.matmul.weight.vals
            &&& loaded.bias.bias.vals == t.bias.bias.vals
        }),
{
    reveal_strlit("matmul/");
    reveal_strlit("weight");
    reveal_strlit("bias/");
    reveal_strlit("bias");
    let p1 = (loc + "matmul/"@) + "weight"@;
    let p2 = (loc + "bias/"@) + "bias"@;
    let r1 = crate::serialize::rec_of_tensor(p1, t.matmul.weight);
    let r2 = crate::serialize::rec_of_tensor(p2, t.bias.bias);
    let recs = DeviceLinear::recs_of(t, loc);
    assert(recs =~= seq![r1, r2]);
    // the two paths differ in length, so the lookups cannot collide
    assert(p1.len() == loc.len() + 13);
    assert(p2.len() == loc.len() + 9);
    assert(recs[0] == r1);
    assert(recs.drop_first() =~= seq![r2]);
    assert(crate::serialize::find_rec(recs, p1) == Some(r1));
    assert(crate::serialize::find_rec(recs, p2) == Some(r2)) by {
        reveal_with_fuel(crate::serialize::find_rec, 3);
        assert(r1.path != p2);
        assert(seq![r2][0] == r2);
    }
    // each leaf decodes to the original values
    crate::serialize::lemma_le_bytes_len(t.matmul.weight.vals);
    crate::serialize::lemma_le_bytes_len(t.bias.bias.vals);
    crate::serialize::lemma_le_bytes_roundtrip(t.matmul.weight.vals);
    crate::serialize::lemma_le_bytes_roundtrip(t.bias.bias.vals);
    let (loaded, r) = DeviceLinear::load_model(fresh, recs, loc);
    assert(fresh.matmul.weight.vals.len() == t.matmul.weight.vals.len());
    assert(fresh.bias.bias.vals.len() == t.bias.bias.vals.len());
    assert(r == Ok::<(), crate::error::LoadError>(()));
    assert(loaded.matmul.weight.vals =~= t.matmul.weight.vals);
    assert(loaded.bias.bias.vals =~= t.bias.bias.vals);
    assert(DeviceLinear::recs_of(loaded, loc) =~= recs) by {
        assert(crate::serialize::rec_of_tensor(p1, loaded.matmul.weight) =~= r1);
        assert(crate::serialize::rec_of_tensor(p2, loaded.bias.bias) =~= r2);
    }
}

} // verus!

use vstd::prelude::*;

use crate::error::{Error, LoadError};
use crate::serialize::{LoadSafeTensors, Record, RecordModel, SaveSafeTensors};
use crate::tensor::Dtype;

verus! {

broadcast use vstd::std_specs::vec::group_vec_axioms;

/// The container encoding of a list of integer-tagged records: what the
/// safetensors format produces for them. It is a function of the records
/// alone; nothing here states its byte layout.
pub uninterp spec fn st_bytes(
    paths: Seq<Seq<char>>,
    shapes: Seq<Seq<usize>>,
    datas: Seq<Seq<u8>>,
) -> Seq<u8>;

/// The path components of a record list.
pub open spec fn rec_paths(rs: Seq<RecordModel>) -> Seq<Seq<char>> {
    rs.map_values(|r: RecordModel| r.path)
}

/// The shape components of a record list.
pub open spec fn rec_shapes(rs: Seq<RecordModel>) -> Seq<Seq<usize>> {
    rs.map_values(|r: RecordModel| r.shape)
}

/// The byte payloads of a record list.
pub open spec fn rec_datas(rs: Seq<RecordModel>) -> Seq<Seq<u8>> {
    rs.map_values(|r: RecordModel| r.data)
}

/// Whether the records carry pairwise-distinct paths (what the container
/// format requires of its name index).
pub open spec fn distinct_paths(rs: Seq<RecordModel>) -> bool {
    forall|i: int, j: int| 0 <= i < j < rs.len() ==> (#[trigger] rs[i]).path != (#[trigger] rs[j]).path
}

/// Whether the container encoding of a list of integer-tagged records with
/// pairwise-distinct paths succeeds: like the encoding itself, a function of
/// the records alone (the format caps its header size).
pub uninterp spec fn st_fits(
    paths: Seq<Seq<char>>,
    shapes: Seq<Seq<usize>>,
    datas: Seq<Seq<u8>>,
) -> bool;

/// Relies on safetensors' `serialize` and `TensorView::new`: encodes named
/// integer tensors into the container byte format. On well-formed records
/// with pairwise-distinct paths (the format's name index cannot hold a
/// duplicate), both the bytes and the success of the encoding are functions
/// of the records alone (`st_bytes`, `st_fits`); reading the source, the only
/// failure left on such records is the format's header-size cap.
#[verifier::external_body]
fn st_serialize(recs: &Vec<Record>) -> (r: Result<Vec<u8>, Error>)
    requires
        forall|i: int| 0 <= i < recs@.len() ==> (#[trigger] recs@[i]@).wf(),
        forall|i: int| 0 <= i < recs@.len() ==> (#[trigger] recs@[i]@).dtype == Dtype::I64,
        distinct_paths(crate::vecs::views_of(recs@)),
    ensures
        r matches Ok(b) ==> b@ == st_bytes(
            rec_paths(crate::vecs::views_of(recs@)),
            rec_shapes(crate::vecs::views_of(recs@)),
            rec_datas(crate::vecs::views_of(recs@)),
        ),
        r is Ok <==> st_fits(
            rec_paths(crate::vecs::views_of(recs@)),
            rec_shapes(crate::vecs::views_of(recs@)),
            rec_datas(crate::vecs::views_of(recs@)),
        ),
{
    let mut data: Vec<(String, safetensors::tensor::TensorView<'_>)> = Vec::new();
    for rec in recs {
        let view = safetensors::tensor::TensorView::new(
            safetensors::Dtype::I64, rec.shape.clone(), &rec.data).unwrap();
        data.push((rec.path.clone(), view));
    }
    safetensors::serialize(data, None).map_err(|_| Error::Alloc)
}

/// Relies on safetensors' `SafeTensors::deserialize`: decodes a container
/// into named tensors. Its header validation guarantees that every returned
/// record's byte count matches its shape and tag, and the name index yields
/// each name once.
#[verifier::external_body]
fn st_deserialize(buf: &Vec<u8>) -> (r: Result<Vec<Record>, LoadError>)
    ensures
        r matches Ok(rs) ==> forall|i: int| 0 <= i < rs@.len() ==> (#[trigger] rs@[i]@).wf(),
{
    let st = match safetensors::SafeTensors::deserialize(buf) {
        Ok(st) => st, Err(_) => return Err(LoadError::Malformed),
    };
    let mut out = Vec::new();
    for (name, view) in st.tensors() {
        let dtype = match view.dtype() {
            safetensors::Dtype::BOOL => Dtype::Bool, safetensors::Dtype::F32 => Dtype::F32,
            safetensors::Dtype::F64 => Dtype::F64, safetensors::Dtype::I64 => Dtype::I64,
            _ => return Err(LoadError::Malformed),
        };
        out.push(Record { path: name, dtype, shape: view.shape().to_vec(), data: view.data().to_vec() });
    }
    Ok(out)
}

/// Flattens a module tree and encodes the records as a safetensors container.
pub fn save_to_bytes<T: SaveSafeTensors>(m: &T) -> (r: Result<Vec<u8>, Error>)
    requires
        T::v_wf(m@),
        T::bytes_fit(m@),
        forall|i: int|
            0 <= i < T::recs_of(m@, Seq::<char>::empty()).len() ==> (#[trigger] T::recs_of(
                m@,
                Seq::<char>::empty(),
            )[i]).wf() && T::recs_of(m@, Seq::<char>::empty())[i].dtype == Dtype::I64,
        distinct_paths(T::recs_of(m@, Seq::<char>::empty())),
    ensures
        r matches Ok(b) ==> b@ == st_bytes(
            rec_paths(T::recs_of(m@, Seq::<char>::empty())),
            rec_shapes(T::recs_of(m@, Seq::<char>::empty())),
            rec_datas(T::recs_of(m@, Seq::<char>::empty())),
        ),
        r is Ok <==> st_fits(
            rec_paths(T::recs_of(m@, Seq::<char>::empty())),
            rec_shapes(T::recs_of(m@, Seq::<char>::empty())),
            rec_datas(T::recs_of(m@, Seq::<char>::empty())),
        ),
{
    let mut recs: Vec<Record> = Vec::new();
    m.write_safetensors("", &mut recs);
    proof {
        reveal_strlit("");
        assert(""@ =~= Seq::<char>::empty());
        assert(crate::vecs::views_of(recs@) =~= T::recs_of(m@, Seq::<char>::empty()));
        assert forall|i: int| 0 <= i < recs@.len() implies (#[trigger] recs@[i]@).wf()
            && recs@[i]@.dtype == Dtype::I64 by {
            assert(recs@[i]@ == crate::vecs::views_of(recs@)[i]);
            assert(crate::vecs::views_of(recs@)[i] == T::recs_of(m@, Seq::<char>::empty())[i]);
        }
    }
    st_serialize(&recs)
}

/// Decodes a safetensors container and loads it into a freshly built module
/// tree of the matching configuration; a malformed container, a missing path
/// or a mismatched record is a hard error.
pub fn load_from_bytes<T: LoadSafeTensors>(m: &mut T, buf: &Vec<u8>) -> (r: Result<(), LoadError>)
    requires
        T::v_wf(old(m)@),
    ensures
        T::v_wf(final(m)@),
        r is Err ==> (r == Err::<(), LoadError>(LoadError::Malformed) && final(m)@ == old(m)@)
            || exists|rs: Seq<RecordModel>|
            (#[trigger] T::load_model(old(m)@, rs, Seq::<char>::empty())) == (final(m)@, r),
        r is Ok ==> exists|rs: Seq<RecordModel>|
            (#[trigger] T::load_model(old(m)@, rs, Seq::<char>::empty())) == (final(m)@, r),
{
    let recs = match st_deserialize(buf) {
        Ok(rs) => rs,
        Err(e) => {
            return Err(LoadError::Malformed);
        },
    };
    let r = m.read_safetensors("", &recs);
    proof {
        reveal_strlit("");
        assert(""@ =~= Seq::<char>::empty());
        let rs = crate::vecs::views_of(recs@);
        assert(T::load_model(old(m)@, rs, Seq::<char>::empty()) == (final(m)@, r));
    }
    r
}

} // verus!

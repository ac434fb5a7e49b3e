use vstd::prelude::*;

use crate::error::Error;
use crate::tensor::{shape_fits, Tensor, TensorModel};

verus! {

/// Declares rand's `StdRng` so a device can hold its generator; the value is
/// opaque here.
#[verifier::external_type_specification]
#[verifier::external_body]
pub struct ExStdRng(rand::rngs::StdRng);

/// Relies on rand's `SeedableRng::seed_from_u64`: constructs a generator from
/// a word-sized seed.
#[verifier::external_body]
fn rng_from_seed(seed: u64) -> rand::rngs::StdRng {
    <rand::rngs::StdRng as rand::SeedableRng>::seed_from_u64(seed)
}

/// Relies on rand's `Rng::next_u64`. The value is random: nothing is promised
/// of it, and callers state only what holds of every outcome.
#[verifier::external_body]
fn rng_next(rng: &mut rand::rngs::StdRng) -> u64 {
    rand::Rng::next_u64(rng)
}

/// The compute device: the allocator of uniquely identified parameter tensors
/// and the source of initialization randomness. Identifiers are handed out
/// sequentially, which makes building deterministic and parameter identities
/// unique per device.
pub struct Device {
    /// The next fresh tensor identifier.
    pub next_id: u64,
    /// The generator behind the fill-with-distribution operation.
    pub rng: rand::rngs::StdRng,
}

impl Device {
    /// A fresh device whose first tensor gets identifier 0 and whose random
    /// draws are seeded reproducibly.
    pub fn new(seed: u64) -> (d: Device)
        ensures
            d.next_id == 0,
    {
        Device { next_id: 0, rng: rng_from_seed(seed) }
    }

    /// Allocates a tensor of the given shape with every element `v` and a
    /// fresh identifier. Fails exactly when the element count does not fit
    /// the machine or the identifiers are exhausted.
    pub fn try_filled(&mut self, shape: &Vec<usize>, v: i64) -> (r: Result<Tensor, Error>)
        ensures
            r matches Ok(t) ==> {
                &&& t@ == TensorModel::filled(old(self).next_id, shape@, v)
                &&& t@.wf()
                &&& final(self).next_id == old(self).next_id + 1
            },
            r is Ok <==> shape_fits(shape@) && old(self).next_id < u64::MAX,
            r matches Err(e) ==> e == Error::Alloc && final(self).next_id == old(self).next_id,
    {
        if self.next_id == u64::MAX {
            return Err(Error::Alloc);
        }
        match crate::tensor::tensor_filled(self.next_id, crate::ops::copy_vec(shape), v) {
            Some(t) => {
                self.next_id = self.next_id + 1;
                Ok(t)
            },
            None => Err(Error::Alloc),
        }
    }

    /// Allocate-zeros, the build pass's workhorse.
    pub fn try_zeros(&mut self, shape: &Vec<usize>) -> (r: Result<Tensor, Error>)
        ensures
            r matches Ok(t) ==> {
                &&& t@ == TensorModel::filled(old(self).next_id, shape@, 0)
                &&& t@.wf()
                &&& final(self).next_id == old(self).next_id + 1
            },
            r is Ok <==> shape_fits(shape@) && old(self).next_id < u64::MAX,
            r matches Err(e) ==> e == Error::Alloc && final(self).next_id == old(self).next_id,
    {
        self.try_filled(shape, 0)
    }

    /// Allocate-ones, for scales and running variances.
    pub fn try_ones(&mut self, shape: &Vec<usize>) -> (r: Result<Tensor, Error>)
        ensures
            r matches Ok(t) ==> {
                &&& t@ == TensorModel::filled(old(self).next_id, shape@, 1)
                &&& t@.wf()
                &&& final(self).next_id == old(self).next_id + 1
            },
            r is Ok <==> shape_fits(shape@) && old(self).next_id < u64::MAX,
            r matches Err(e) ==> e == Error::Alloc && final(self).next_id == old(self).next_id,
    {
        self.try_filled(shape, 1)
    }

    /// One uniform draw in `[-bound, bound]`.
    fn draw(&mut self, bound: i64) -> (v: i64)
        requires
            1 <= bound <= 0x7fff_ffff,
        ensures
            -bound <= v <= bound,
            final(self).next_id == old(self).next_id,
    {
        let span: u64 = (2 * bound + 1) as u64;
        let x = rng_next(&mut self.rng);
        let m = x % span;
        (m as i64) - bound
    }

    /// Overwrites every element of `t` with an independent uniform draw in
    /// `[-bound, bound]`; identity, shape and tape flag survive. This is the
    /// engine's fill-with-distribution operation; only the bound (not the
    /// values) can be promised of it.
    pub fn fill_uniform(&mut self, t: &mut Tensor, bound: i64)
        requires
            old(t)@.wf(),
            1 <= bound <= 0x7fff_ffff,
        ensures
            final(t)@.wf(),
            old(t)@.same_frame(final(t)@),
            forall|i: int|
                0 <= i < final(t)@.vals.len() ==> -bound <= #[trigger] final(t)@.vals[i] <= bound,
            final(self).next_id == old(self).next_id,
    {
        let n = t.vals.len();
        let mut vals: Vec<i64> = Vec::new();
        let mut i: usize = 0;
        while i < n
            invariant
                0 <= i <= n,
                vals@.len() == i,
                1 <= bound <= 0x7fff_ffff,
                forall|j: int| 0 <= j < i ==> -bound <= #[trigger] vals@[j] <= bound,
                self.next_id == old(self).next_id,
            decreases n - i,
        {
            let v = self.draw(bound);
            vals.push(v);
            i += 1;
        }
        t.vals = vals;
    }
}

} // verus!

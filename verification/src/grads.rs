use std::collections::HashMap;

use vstd::prelude::*;

use crate::tensor::{Tensor, TensorModel};

verus! {

broadcast use vstd::std_specs::hash::group_hash_axioms;

/// The zero-filled gradient a zero-grad pass installs for a parameter leaf:
/// same identity and shape, all elements zero, not taped.
pub open spec fn zero_of(p: TensorModel) -> TensorModel {
    TensorModel::filled(p.id, p.shape, 0)
}

/// The gradient table: a mapping from parameter identity to a gradient tensor
/// of the parameter's shape. It is built incrementally by an external
/// backward step, and consulted and mutated by the update and zero-gradient
/// passes; one pass at a time holds it exclusively.
#[derive(Debug)]
pub struct Gradients {
    table: HashMap<u64, Tensor>,
}

impl View for Gradients {
    type V = Map<u64, TensorModel>;

    closed spec fn view(&self) -> Map<u64, TensorModel> {
        Map::new(|k: u64| self.table@.contains_key(k), |k: u64| self.table@[k]@)
    }
}

impl Gradients {
    /// Every stored gradient is a well-formed tensor.
    pub open spec fn wf(&self) -> bool {
        forall|k: u64| self@.contains_key(k) ==> (#[trigger] self@[k]).wf()
    }

    /// An empty table ("leaky": it holds no leaf yet).
    pub fn new() -> (g: Gradients)
        ensures
            g@ == Map::<u64, TensorModel>::empty(),
            g.wf(),
    {
        let g = Gradients { table: HashMap::new() };
        proof {
            assert(g@ =~= Map::<u64, TensorModel>::empty());
        }
        g
    }

    /// Whether a parameter identity has a gradient entry.
    pub fn contains(&self, id: u64) -> (r: bool)
        ensures
            r == self@.contains_key(id),
    {
        self.table.contains_key(&id)
    }

    /// The gradient for a parameter identity, if any.
    pub fn get(&self, id: u64) -> (r: Option<&Tensor>)
        ensures
            match r {
                Some(t) => self@.contains_key(id) && t@ == self@[id],
                None => !self@.contains_key(id),
            },
    {
        self.table.get(&id)
    }

    /// Installs `t` as the gradient of identity `id`, replacing any entry.
    pub fn insert(&mut self, id: u64, t: Tensor)
        requires
            t@.wf(),
        ensures
            final(self)@ == old(self)@.insert(id, t@),
            old(self).wf() ==> final(self).wf(),
    {
        self.table.insert(id, t);
        proof {
            assert(final(self)@ =~= old(self)@.insert(id, t@));
        }
    }

    /// Installs a freshly zero-filled gradient for the parameter `p`
    /// (get-or-allocate followed by a zero fill).
    pub fn set_zero(&mut self, p: &Tensor)
        requires
            p@.wf(),
        ensures
            final(self)@ == old(self)@.insert(p@.id, zero_of(p@)),
            old(self).wf() ==> final(self).wf(),
    {
        let t = match crate::tensor::tensor_filled(p.id, crate::ops::copy_vec(&p.shape), 0) {
            Some(t) => t,
            None => {
                // unreachable: a well-formed parameter has an allocatable shape
                proof {
                    assert(false);
                }
                vstd::pervasive::unreached()
            },
        };
        self.insert(p.id, t);
    }

    /// How many identities have entries.
    pub fn len(&self) -> (n: usize)
        ensures
            n == self@.dom().len(),
    {
        proof {
            assert(self@.dom() =~= self.table@.dom());
        }
        self.table.len()
    }
}

} // verus!

use vstd::prelude::*;

use crate::base::Optimizer;
use crate::error::Error;
use crate::ops::tdiv;
use crate::grads::Gradients;
use crate::tensor::{Tensor, TensorModel};

verus! {

/// Hyperparameters of stochastic gradient descent with momentum, as exact
/// rationals: the learning rate is `lr_num / lr_den` and the momentum factor
/// `mom_num / mom_den`.
#[derive(Clone, Copy, Debug, PartialEq, Eq, Structural)]
pub struct SgdConfig {
    pub lr_num: i64,
    pub lr_den: i64,
    pub mom_num: i64,
    pub mom_den: i64,
}

impl SgdConfig {
    /// Positive denominators make every step total.
    pub open spec fn wf(self) -> bool {
        self.lr_den >= 1 && self.mom_den >= 1
    }
}

/// One velocity element: the decayed old velocity plus the gradient.
pub open spec fn sgd_vel(cfg: SgdConfig, v: i64, g: i64) -> i64 {
    vstd::wrapping::i64_specs::wrapping_add(
        tdiv(vstd::wrapping::i64_specs::wrapping_mul(cfg.mom_num, v), cfg.mom_den),
        g,
    )
}

/// One parameter element: the old value minus the scaled new velocity.
pub open spec fn sgd_param(cfg: SgdConfig, t: i64, v1: i64) -> i64 {
    vstd::wrapping::i64_specs::wrapping_sub(
        t,
        tdiv(vstd::wrapping::i64_specs::wrapping_mul(cfg.lr_num, v1), cfg.lr_den),
    )
}

/// The stored velocity used for a step: the entry for the parameter's
/// identity when it exists with the right element count, else zeros
/// (get-or-allocate).
pub open spec fn vel_of(vel: Map<u64, TensorModel>, t: TensorModel) -> Seq<i64> {
    if vel.contains_key(t.id) && vel[t.id].vals.len() == t.vals.len() {
        vel[t.id].vals
    } else {
        Seq::new(t.vals.len(), |i: int| 0i64)
    }
}

/// Stochastic gradient descent with momentum. The velocity buffer is keyed by
/// parameter identity and allocated on first use; each step decays the
/// velocity, adds the gradient, and moves the parameter against the scaled
/// velocity, elementwise over the engine's exact integers.
#[derive(Debug)]
pub struct Sgd {
    /// Hyperparameter configuration.
    pub cfg: SgdConfig,
    velocity: Gradients,
}

/// Model of the optimizer state.
#[verifier::ext_equal]
pub struct SgdV {
    pub cfg: SgdConfig,
    pub velocity: Map<u64, TensorModel>,
}

impl View for Sgd {
    type V = SgdV;

    closed spec fn view(&self) -> SgdV {
        SgdV { cfg: self.cfg, velocity: self.velocity@ }
    }
}

impl Sgd {
    /// Constructs from hyperparameters, with an empty velocity buffer.
    pub fn new(cfg: SgdConfig) -> (r: Sgd)
        ensures
            r@.cfg == cfg,
            r@.velocity == Map::<u64, TensorModel>::empty(),
    {
        Sgd { cfg, velocity: Gradients::new() }
    }
}

impl Optimizer for Sgd {
    open spec fn o_wf(v: SgdV) -> bool {
        v.cfg.wf() && (forall|k: u64|
            v.velocity.contains_key(k) ==> (#[trigger] v.velocity[k]).wf())
    }

    open spec fn step(pre: SgdV, t: TensorModel, g: TensorModel) -> (SgdV, TensorModel) {
        let v0 = vel_of(pre.velocity, t);
        let v1 = Seq::new(t.vals.len(), |i: int| sgd_vel(pre.cfg, v0[i], g.vals[i]));
        let t1 = Seq::new(t.vals.len(), |i: int| sgd_param(pre.cfg, t.vals[i], v1[i]));
        (
            SgdV {
                cfg: pre.cfg,
                velocity: pre.velocity.insert(
                    t.id,
                    TensorModel { id: t.id, shape: t.shape, vals: v1, taped: false },
                ),
            },
            TensorModel { id: t.id, shape: t.shape, vals: t1, taped: t.taped },
        )
    }

    proof fn lemma_step_frame(pre: SgdV, t: TensorModel, g: TensorModel) {
        assert forall|k: u64| Self::step(pre, t, g).0.velocity.contains_key(k) implies (
        #[trigger] Self::step(pre, t, g).0.velocity[k]).wf() by {
            if k != t.id {
                assert(Self::step(pre, t, g).0.velocity[k] == pre.velocity[k]);
            }
        }
    }

    fn update_tensor(&mut self, t: &mut Tensor, grads: &Gradients, missing: &mut Vec<u64>) -> (r:
        Result<(), Error>) {
        let g = match grads.get(t.id) {
            Some(g) => g,
            None => {
                missing.push(t.id);
                return Ok(());
            },
        };
        let ghost stepped = <Sgd as Optimizer>::step(old(self)@, old(t)@, grads@[old(t)@.id]);
        let n = t.vals.len();
        // fetch or allocate the velocity for this parameter
        let has_vel = match self.velocity.get(t.id) {
            Some(v) => v.vals.len() == n,
            None => false,
        };
        let mut v1: Vec<i64> = Vec::new();
        let mut t1: Vec<i64> = Vec::new();
        let mut i: usize = 0;
        proof {
            // the gradient's element count matches the parameter's
            assert(g@.vals.len() == crate::tensor::numel(g@.shape));
        }
        while i < n
            invariant
                0 <= i <= n,
                n == old(t)@.vals.len(),
                g@ == grads@[old(t)@.id],
                g@.vals.len() == n,
                self@ == old(self)@,
                t@ == old(t)@,
                old(self)@.cfg.wf(),
                has_vel == (old(self)@.velocity.contains_key(old(t)@.id)
                    && old(self)@.velocity[old(t)@.id].vals.len() == n),
                v1@.len() == i,
                t1@.len() == i,
                forall|j: int|
                    0 <= j < i ==> v1@[j] == sgd_vel(
                        old(self)@.cfg,
                        vel_of(old(self)@.velocity, old(t)@)[j],
                        g@.vals[j],
                    ),
                forall|j: int|
                    0 <= j < i ==> t1@[j] == sgd_param(old(self)@.cfg, old(t)@.vals[j], v1@[j]),
            decreases n - i,
        {
            let v0: i64 = if has_vel {
                match self.velocity.get(t.id) {
                    Some(v) => v.vals[i],
                    None => {
                        proof {
                            assert(false);
                        }
                        vstd::pervasive::unreached()
                    },
                }
            } else {
                0
            };
            proof {
                assert(vel_of(old(self)@.velocity, old(t)@)[i as int] == v0);
            }
            let vv = match self.cfg.mom_num.wrapping_mul(v0).checked_div(self.cfg.mom_den) {
                Some(q) => q,
                None => {
                    proof {
                        assert(false);
                    }
                    vstd::pervasive::unreached()
                },
            };
            let v_new = vv.wrapping_add(g.vals[i]);
            let tt = match self.cfg.lr_num.wrapping_mul(v_new).checked_div(self.cfg.lr_den) {
                Some(q) => q,
                None => {
                    proof {
                        assert(false);
                    }
                    vstd::pervasive::unreached()
                },
            };
            let t_new = t.vals[i].wrapping_sub(tt);
            v1.push(v_new);
            t1.push(t_new);
            i += 1;
        }
        let vel_t = Tensor {
            id: t.id,
            shape: crate::ops::copy_vec(&t.shape),
            vals: v1,
            taped: false,
        };
        proof {
            assert(vel_t@.wf()) by {
                assert(vel_t@.vals.len() == old(t)@.vals.len());
            }
        }
        self.velocity.insert(t.id, vel_t);
        t.vals = t1;
        proof {
            assert(t@ =~= stepped.1);
            assert(final(self)@.velocity =~= stepped.0.velocity) by {
                assert(vel_t@ =~= TensorModel {
                    id: old(t)@.id,
                    shape: old(t)@.shape,
                    vals: stepped.0.velocity[old(t)@.id].vals,
                    taped: false,
                });
            }
            assert(final(self)@ =~= stepped.0);
            Self::lemma_step_frame(old(self)@, old(t)@, grads@[old(t)@.id]);
        }
        Ok(())
    }
}

} // verus!

//! The derivative interface the integrator works against.
//!
//! A dynamical element maps a scalar state and a control input to the
//! time derivative of the state, `dv/dt = f(v, u)`.  The integrator is
//! generic over this trait, so any joint-and-link pair — or a future
//! dynamical element — can supply its own physics.

use crate::rat::{in_range, omatch, pwf, rat_eq, Rat};
use vstd::prelude::*;

verus! {

/// A scalar first-order dynamical element.
pub trait DynamicsModel: Sized {
    /// The element's own invariant.
    spec fn dyn_wf(&self) -> bool;

    /// The exact derivative, as a fraction.
    spec fn deriv_spec(&self, v: (int, int), u: (int, int)) -> (int, int);

    /// The stored derivative: the exact derivative computed with each
    /// intermediate reduced, `None` when one leaves the stored range.
    spec fn deriv_opt(&self, v: (int, int), u: (int, int)) -> Option<(int, int)>;

    /// The exact derivative of well-formed arguments is well formed.
    proof fn lemma_deriv_spec_wf(&self, v: (int, int), u: (int, int))
        requires
            self.dyn_wf(),
            pwf(v),
            pwf(u),
        ensures
            pwf(self.deriv_spec(v, u)),
    ;

    /// The exact derivative respects fraction equality of its arguments.
    proof fn lemma_deriv_spec_cong(&self, v: (int, int), v2: (int, int), u: (int, int), u2: (int, int))
        requires
            self.dyn_wf(),
            pwf(v),
            pwf(v2),
            pwf(u),
            pwf(u2),
            rat_eq(v, v2),
            rat_eq(u, u2),
        ensures
            rat_eq(self.deriv_spec(v, u), self.deriv_spec(v2, u2)),
    ;

    /// The stored derivative, when it exists, is within range and equal
    /// as a fraction to the exact derivative, which is well formed.
    proof fn lemma_deriv_sound(&self, v: (int, int), u: (int, int))
        requires
            self.dyn_wf(),
            in_range(v),
            in_range(u),
        ensures
            pwf(self.deriv_spec(v, u)),
            self.deriv_opt(v, u) matches Some(q) ==> in_range(q) && rat_eq(
                q,
                self.deriv_spec(v, u),
            ),
    ;

    /// The element is at rest at zero: a zero state under a zero control
    /// has a zero stored derivative, whenever one exists at all.
    proof fn lemma_deriv_zero(&self, v: (int, int), u: (int, int))
        requires
            self.dyn_wf(),
            in_range(v),
            in_range(u),
            v.0 == 0,
            u.0 == 0,
        ensures
            self.deriv_opt(v, u) matches Some(q) ==> q == (0int, 1int),
    ;

    /// Compute the stored derivative.
    fn deriv(&self, v: &Rat, u: &Rat) -> (r: Option<Rat>)
        requires
            self.dyn_wf(),
            v.wf(),
            u.wf(),
        ensures
            omatch(r, self.deriv_opt(v@, u@)),
    ;
}

} // verus!

//! A couple: one joint paired with the link it drives.
//!
//! The couple is the atomic unit the integrator operates on.  It exposes
//! the derivative of its angular velocity under the motor model
//!
//! `alpha(v, u) = -(ratio^2 * Kt * v) / (Kv * R * moment) + (u * ratio * Kt) / moment`
//!
//! where back-EMF proportional to `ratio * v` produces the damping term,
//! the commanded current `u` produces the driving term, and dividing by
//! the moment of inertia of the driven link turns torque into angular
//! acceleration.  The moment is recomputed on every call, so a live edit
//! of the link's length takes effect immediately.

use crate::dynamics::DynamicsModel;
use crate::joint::Joint;
use crate::link::{moment_opt, moment_spec, Link};
use crate::motor::{kt_spec, kv_spec, resistance_spec, MotorSpec, MotorType};
use crate::point::Point;
use crate::rat::{
    in_range, is_pos, lemma_norm_opt, lemma_padd_cong, lemma_pdiv_cong, lemma_pmul_cong,
    lemma_pmul_pos, lemma_pneg_cong, lemma_pwf_ops, lemma_rat_eq_pos, lemma_rat_eq_trans, madd,
    mdiv, mmul, omatch, padd, pdiv, pmul, pneg, pwf, rat_eq, Rat,
};
use vstd::prelude::*;

verus! {

/// One joint-and-link pair.
#[derive(Clone, Copy, Debug)]
pub struct Couple {
    /// The joint, with its motor, gear ratio, anchor and state.
    pub joint: Joint,
    /// The link the joint drives.
    pub link: Link,
}

/// The constant coefficients of the couple's derivative, each reduced:
/// the damping numerator `(ratio^2) * Kt`, the damping denominator
/// `(Kv * R) * moment`, and the moment of inertia itself.
pub open spec fn coeffs_opt(c: Couple) -> Option<((int, int), (int, int), (int, int))> {
    match moment_opt(c.link.m@, c.link.l@) {
        Option::None => None,
        Option::Some(mom) => match mmul(c.joint.ratio@, c.joint.ratio@) {
            Option::None => None,
            Option::Some(r2) => match mmul(r2, kt_spec(c.joint.motor_type)) {
                Option::None => None,
                Option::Some(n1) => match mmul(
                    kv_spec(c.joint.motor_type),
                    resistance_spec(c.joint.motor_type),
                ) {
                    Option::None => None,
                    Option::Some(d1) => match mmul(d1, mom) {
                        Option::None => None,
                        Option::Some(d2) => Some((n1, d2, mom)),
                    },
                },
            },
        },
    }
}

impl Couple {
    /// Joint and link are each well formed.
    pub open spec fn wf(self) -> bool {
        self.joint.wf() && self.link.wf()
    }

    /// A snapshot of the couple for diagnostics and rendering: anchor,
    /// angular velocity, the commanded current `u` (as the caller knows
    /// it, `None` when none has been commanded yet), gear ratio and
    /// moment of inertia; `None` when the exact moment leaves the stored
    /// range.
    pub fn state(&self, u: Option<Rat>) -> (r: Option<CoupleState>)
        requires
            self.wf(),
        ensures
            r is Some <==> moment_opt(self.link.m@, self.link.l@) is Some,
            r matches Some(st) ==> st.s == self.joint.s && st.v == self.joint.v && st.ratio
                == self.joint.ratio && st.moi@ == moment_opt(self.link.m@, self.link.l@).unwrap()
                && st.u == u,
    {
        match self.link.moment() {
            None => None,
            Some(moi) => Some(
                CoupleState { s: self.joint.s, v: self.joint.v, u, ratio: self.joint.ratio, moi },
            ),
        }
    }
}

impl DynamicsModel for Couple {
    open spec fn dyn_wf(&self) -> bool {
        self.wf()
    }

    open spec fn deriv_spec(&self, v: (int, int), u: (int, int)) -> (int, int) {
        let kt = kt_spec(self.joint.motor_type);
        let kv = kv_spec(self.joint.motor_type);
        let rr = resistance_spec(self.joint.motor_type);
        let ratio = self.joint.ratio@;
        let mom = moment_spec(self.link.m@, self.link.l@);
        padd(
            pneg(pdiv(pmul(pmul(pmul(ratio, ratio), kt), v), pmul(pmul(kv, rr), mom))),
            pdiv(pmul(pmul(u, ratio), kt), mom),
        )
    }

    open spec fn deriv_opt(&self, v: (int, int), u: (int, int)) -> Option<(int, int)> {
        match coeffs_opt(*self) {
            Option::None => None,
            Option::Some((n1, d2, mom)) => match mmul(n1, v) {
                Option::None => None,
                Option::Some(n2) => match mdiv(n2, d2) {
                    Option::None => None,
                    Option::Some(t1) => match mmul(u, self.joint.ratio@) {
                        Option::None => None,
                        Option::Some(u1) => match mmul(u1, kt_spec(self.joint.motor_type)) {
                            Option::None => None,
                            Option::Some(u2) => match mdiv(u2, mom) {
                                Option::None => None,
                                Option::Some(t2) => madd(pneg(t1), t2),
                            },
                        },
                    },
                },
            },
        }
    }

    proof fn lemma_deriv_spec_wf(&self, v: (int, int), u: (int, int)) {
        let kt = kt_spec(self.joint.motor_type);
        let kv = kv_spec(self.joint.motor_type);
        let rr = resistance_spec(self.joint.motor_type);
        let ratio = self.joint.ratio@;
        let mom_p = moment_spec(self.link.m@, self.link.l@);
        crate::link::lemma_moment_sound(self.link.m@, self.link.l@);
        let r2_p = pmul(ratio, ratio);
        let n1_p = pmul(r2_p, kt);
        let d1_p = pmul(kv, rr);
        let d2_p = pmul(d1_p, mom_p);
        let n2_p = pmul(n1_p, v);
        let t1_p = pdiv(n2_p, d2_p);
        let u1_p = pmul(u, ratio);
        let u2_p = pmul(u1_p, kt);
        let t2_p = pdiv(u2_p, mom_p);
        lemma_pwf_ops(ratio, ratio);
        lemma_pwf_ops(r2_p, kt);
        lemma_pwf_ops(kv, rr);
        lemma_pwf_ops(d1_p, mom_p);
        lemma_pwf_ops(n1_p, v);
        lemma_pmul_pos(kv, rr);
        lemma_pmul_pos(d1_p, mom_p);
        lemma_pwf_ops(n2_p, d2_p);
        lemma_pwf_ops(u, ratio);
        lemma_pwf_ops(u1_p, kt);
        lemma_pwf_ops(u2_p, mom_p);
        lemma_pwf_ops(t1_p, t1_p);
        lemma_pwf_ops(pneg(t1_p), t2_p);
    }

    proof fn lemma_deriv_spec_cong(
        &self,
        v: (int, int),
        v2: (int, int),
        u: (int, int),
        u2: (int, int),
    ) {
        let kt = kt_spec(self.joint.motor_type);
        let kv = kv_spec(self.joint.motor_type);
        let rr = resistance_spec(self.joint.motor_type);
        let ratio = self.joint.ratio@;
        let mom_p = moment_spec(self.link.m@, self.link.l@);
        crate::link::lemma_moment_sound(self.link.m@, self.link.l@);
        let r2_p = pmul(ratio, ratio);
        let n1_p = pmul(r2_p, kt);
        let d1_p = pmul(kv, rr);
        let d2_p = pmul(d1_p, mom_p);
        lemma_pwf_ops(ratio, ratio);
        lemma_pwf_ops(r2_p, kt);
        lemma_pwf_ops(kv, rr);
        lemma_pwf_ops(d1_p, mom_p);
        lemma_pmul_pos(kv, rr);
        lemma_pmul_pos(d1_p, mom_p);
        let n2_a = pmul(n1_p, v);
        let n2_b = pmul(n1_p, v2);
        lemma_pwf_ops(n1_p, v);
        lemma_pwf_ops(n1_p, v2);
        lemma_pmul_cong(n1_p, n1_p, v, v2);
        lemma_pwf_ops(n2_a, d2_p);
        lemma_pwf_ops(n2_b, d2_p);
        lemma_pdiv_cong(n2_a, n2_b, d2_p, d2_p);
        let t1_a = pdiv(n2_a, d2_p);
        let t1_b = pdiv(n2_b, d2_p);
        lemma_pneg_cong(t1_a, t1_b);
        let u1_a = pmul(u, ratio);
        let u1_b = pmul(u2, ratio);
        lemma_pwf_ops(u, ratio);
        lemma_pwf_ops(u2, ratio);
        lemma_pmul_cong(u, u2, ratio, ratio);
        let u2_a = pmul(u1_a, kt);
        let u2_b = pmul(u1_b, kt);
        lemma_pwf_ops(u1_a, kt);
        lemma_pwf_ops(u1_b, kt);
        lemma_pmul_cong(u1_a, u1_b, kt, kt);
        lemma_pwf_ops(u2_a, mom_p);
        lemma_pwf_ops(u2_b, mom_p);
        lemma_pdiv_cong(u2_a, u2_b, mom_p, mom_p);
        let t2_a = pdiv(u2_a, mom_p);
        let t2_b = pdiv(u2_b, mom_p);
        lemma_pwf_ops(t1_a, t1_a);
        lemma_pwf_ops(t1_b, t1_b);
        lemma_padd_cong(pneg(t1_a), pneg(t1_b), t2_a, t2_b);
    }

    proof fn lemma_deriv_sound(&self, v: (int, int), u: (int, int)) {
        let kt = kt_spec(self.joint.motor_type);
        let kv = kv_spec(self.joint.motor_type);
        let rr = resistance_spec(self.joint.motor_type);
        let ratio = self.joint.ratio@;
        let mom_p = moment_spec(self.link.m@, self.link.l@);
        crate::link::lemma_moment_sound(self.link.m@, self.link.l@);
        let r2_p = pmul(ratio, ratio);
        let n1_p = pmul(r2_p, kt);
        let d1_p = pmul(kv, rr);
        let d2_p = pmul(d1_p, mom_p);
        let n2_p = pmul(n1_p, v);
        let t1_p = pdiv(n2_p, d2_p);
        let u1_p = pmul(u, ratio);
        let u2_p = pmul(u1_p, kt);
        let t2_p = pdiv(u2_p, mom_p);
        lemma_pwf_ops(ratio, ratio);
        lemma_pwf_ops(r2_p, kt);
        lemma_pwf_ops(kv, rr);
        lemma_pwf_ops(d1_p, mom_p);
        lemma_pwf_ops(n1_p, v);
        lemma_pmul_pos(ratio, ratio);
        lemma_pmul_pos(r2_p, kt);
        lemma_pmul_pos(kv, rr);
        lemma_pmul_pos(d1_p, mom_p);
        lemma_pwf_ops(n2_p, d2_p);
        lemma_pwf_ops(u, ratio);
        lemma_pwf_ops(u1_p, kt);
        lemma_pwf_ops(u2_p, mom_p);
        lemma_pwf_ops(pneg(t1_p), t2_p);
        if coeffs_opt(*self) is Some {
            let (n1, d2, mom) = coeffs_opt(*self).unwrap();
            lemma_norm_opt(r2_p);
            let r2 = mmul(ratio, ratio).unwrap();
            lemma_norm_opt(pmul(r2, kt));
            lemma_pmul_cong(r2, r2_p, kt, kt);
            lemma_rat_eq_trans(n1, pmul(r2, kt), n1_p);
            lemma_norm_opt(d1_p);
            let d1 = mmul(kv, rr).unwrap();
            lemma_pwf_ops(d1, mom);
            lemma_norm_opt(pmul(d1, mom));
            lemma_pmul_cong(d1, d1_p, mom, mom_p);
            lemma_rat_eq_trans(d2, pmul(d1, mom), d2_p);
            lemma_rat_eq_pos(d2, d2_p);
            if mmul(n1, v) is Some {
                let n2 = mmul(n1, v).unwrap();
                lemma_pwf_ops(n1, v);
                lemma_norm_opt(pmul(n1, v));
                lemma_pmul_cong(n1, n1_p, v, v);
                lemma_rat_eq_trans(n2, pmul(n1, v), n2_p);
                if mdiv(n2, d2) is Some {
                    let t1 = mdiv(n2, d2).unwrap();
                    lemma_pwf_ops(n2, d2);
                    lemma_norm_opt(pdiv(n2, d2));
                    lemma_pdiv_cong(n2, n2_p, d2, d2_p);
                    lemma_rat_eq_trans(t1, pdiv(n2, d2), t1_p);
                    if mmul(u, self.joint.ratio@) is Some {
                        let u1 = mmul(u, self.joint.ratio@).unwrap();
                        lemma_norm_opt(u1_p);
                        lemma_pmul_cong(u1, u1_p, kt, kt);
                        lemma_pwf_ops(u1, kt);
                        lemma_norm_opt(pmul(u1, kt));
                        if mmul(u1, kt) is Some {
                            let u2 = mmul(u1, kt).unwrap();
                            lemma_rat_eq_trans(u2, pmul(u1, kt), u2_p);
                            if mdiv(u2, mom) is Some {
                                let t2 = mdiv(u2, mom).unwrap();
                                lemma_pwf_ops(u2, mom);
                                lemma_norm_opt(pdiv(u2, mom));
                                lemma_pdiv_cong(u2, u2_p, mom, mom_p);
                                lemma_rat_eq_trans(t2, pdiv(u2, mom), t2_p);
                                lemma_pneg_cong(t1, t1_p);
                                lemma_pwf_ops(t1, t1);
                                lemma_pwf_ops(t1_p, t1_p);
                                lemma_pwf_ops(pneg(t1), t2);
                                lemma_norm_opt(padd(pneg(t1), t2));
                                lemma_padd_cong(pneg(t1), pneg(t1_p), t2, t2_p);
                                if madd(pneg(t1), t2) is Some {
                                    let q = madd(pneg(t1), t2).unwrap();
                                    lemma_rat_eq_trans(
                                        q,
                                        padd(pneg(t1), t2),
                                        self.deriv_spec(v, u),
                                    );
                                }
                            }
                        }
                    }
                }
            }
        }
    }

    proof fn lemma_deriv_zero(&self, v: (int, int), u: (int, int)) {
        let kt = kt_spec(self.joint.motor_type);
        let kv = kv_spec(self.joint.motor_type);
        let rr = resistance_spec(self.joint.motor_type);
        let ratio = self.joint.ratio@;
        if coeffs_opt(*self) is Some {
            let (n1, d2, mom) = coeffs_opt(*self).unwrap();
            crate::link::lemma_moment_sound(self.link.m@, self.link.l@);
            let mom_p = moment_spec(self.link.m@, self.link.l@);
            lemma_rat_eq_pos(mom, mom_p);
            lemma_pmul_pos(kv, rr);
            lemma_norm_opt(pmul(kv, rr));
            let d1 = mmul(kv, rr).unwrap();
            lemma_pmul_pos(d1, mom);
            lemma_pwf_ops(d1, mom);
            lemma_norm_opt(pmul(d1, mom));
            lemma_pwf_ops(n1, v);
            assert(pmul(n1, v).0 == 0);
            lemma_norm_opt(pmul(n1, v));
            assert(mmul(n1, v) == Some((0int, 1int)));
            let n2 = (0int, 1int);
            lemma_pwf_ops(n2, d2);
            assert(pdiv(n2, d2).0 == 0);
            lemma_norm_opt(pdiv(n2, d2));
            assert(mdiv(n2, d2) == Some((0int, 1int)));
            let t1 = (0int, 1int);
            lemma_pwf_ops(u, ratio);
            assert(pmul(u, ratio).0 == 0);
            lemma_norm_opt(pmul(u, ratio));
            assert(mmul(u, ratio) == Some((0int, 1int)));
            let u1 = (0int, 1int);
            lemma_pwf_ops(u1, kt);
            assert(pmul(u1, kt).0 == 0);
            lemma_norm_opt(pmul(u1, kt));
            assert(mmul(u1, kt) == Some((0int, 1int)));
            let u2 = (0int, 1int);
            lemma_pwf_ops(u2, mom);
            assert(pdiv(u2, mom).0 == 0);
            lemma_norm_opt(pdiv(u2, mom));
            assert(mdiv(u2, mom) == Some((0int, 1int)));
            let t2 = (0int, 1int);
            lemma_pwf_ops(pneg(t1), t2);
            assert(padd(pneg(t1), t2).0 == 0);
            lemma_norm_opt(padd(pneg(t1), t2));
            assert(madd(pneg(t1), t2) == Some((0int, 1int)));
        }
    }

    fn deriv(&self, v: &Rat, u: &Rat) -> (r: Option<Rat>) {
        let spec = MotorSpec::of(&self.joint.motor_type);
        proof {
            crate::link::lemma_moment_sound(self.link.m@, self.link.l@);
        }
        let mom = match self.link.moment() {
            None => {
                return None;
            },
            Some(x) => x,
        };
        proof {
            lemma_pmul_pos(self.joint.ratio@, self.joint.ratio@);
            lemma_pwf_ops(self.joint.ratio@, self.joint.ratio@);
            lemma_norm_opt(pmul(self.joint.ratio@, self.joint.ratio@));
        }
        let r2 = match self.joint.ratio.try_mul(&self.joint.ratio) {
            None => {
                return None;
            },
            Some(x) => x,
        };
        proof {
            lemma_pmul_pos(r2@, spec.kt@);
            lemma_pwf_ops(r2@, spec.kt@);
            lemma_norm_opt(pmul(r2@, spec.kt@));
        }
        let n1 = match r2.try_mul(&spec.kt) {
            None => {
                return None;
            },
            Some(x) => x,
        };
        proof {
            lemma_pmul_pos(spec.kv@, spec.resistance@);
            lemma_norm_opt(pmul(spec.kv@, spec.resistance@));
        }
        let d1 = match spec.kv.try_mul(&spec.resistance) {
            None => {
                return None;
            },
            Some(x) => x,
        };
        proof {
            lemma_pmul_pos(d1@, mom@);
            lemma_pwf_ops(d1@, mom@);
            lemma_norm_opt(pmul(d1@, mom@));
        }
        let d2 = match d1.try_mul(&mom) {
            None => {
                return None;
            },
            Some(x) => x,
        };
        let n2 = match n1.try_mul(v) {
            None => {
                return None;
            },
            Some(x) => x,
        };
        let t1 = match n2.try_div(&d2) {
            None => {
                return None;
            },
            Some(x) => x,
        };
        let t1n = t1.neg();
        let u1 = match u.try_mul(&self.joint.ratio) {
            None => {
                return None;
            },
            Some(x) => x,
        };
        let u2 = match u1.try_mul(&spec.kt) {
            None => {
                return None;
            },
            Some(x) => x,
        };
        let t2 = match u2.try_div(&mom) {
            None => {
                return None;
            },
            Some(x) => x,
        };
        t1n.try_add(&t2)
    }
}

/// A read-only snapshot of one couple.
#[derive(Clone, Copy, Debug)]
pub struct CoupleState {
    /// World-space position of the pivot.
    pub s: Point,
    /// Angular velocity, in radians per second.
    pub v: Rat,
    /// The commanded current, in amperes, when one is known.
    pub u: Option<Rat>,
    /// Gear ratio of the joint.
    pub ratio: Rat,
    /// Moment of inertia of the driven link.
    pub moi: Rat,
}

impl CoupleState {
    /// A snapshot from its parts.
    pub fn new(s: Point, v: Rat, u: Option<Rat>, ratio: Rat, moi: Rat) -> (r: CoupleState)
        ensures
            r == (CoupleState { s, v, u, ratio, moi }),
    {
        CoupleState { s, v, u, ratio, moi }
    }
}

} // verus!

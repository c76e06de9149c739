//! One-step explicit Runge-Kutta integration of order four.
//!
//! For a scalar first-order ODE `dv/dt = f(v, u)` with the control input
//! `u` held constant across the step (zero-order hold), the classical
//! four-stage scheme is
//!
//! ```text
//! k1 = f(v0,             u)
//! k2 = f(v0 + dt/2 * k1, u)
//! k3 = f(v0 + dt/2 * k2, u)
//! k4 = f(v0 + dt   * k3, u)
//! v1 = v0 + dt/6 * (k1 + 2*k2 + 2*k3 + k4)
//! ```
//!
//! The step is stateless and reentrant, and generic over the derivative
//! through [`DynamicsModel`].

use crate::dynamics::DynamicsModel;
use crate::rat::{
    in_range, is_pos, lemma_norm_opt, lemma_padd_cong, lemma_padd_zero_unit, lemma_pdist,
    lemma_pmul_assoc, lemma_pmul_comm, lemma_pmul_cong, lemma_pmul_num_zero, lemma_pmul_one,
    lemma_pmul_pneg, lemma_pneg_cong, lemma_pneg_padd, lemma_pwf_ops, lemma_rat_eq_trans, madd,
    mmul, omatch, padd, pmul, pneg, pwf, rat_eq, Rat,
};
use vstd::prelude::*;

verus! {

/// The exact value of one step, as a fraction.
pub open spec fn rk4_spec<D: DynamicsModel>(
    d: D,
    v0: (int, int),
    u: (int, int),
    dt: (int, int),
) -> (int, int) {
    let k1 = d.deriv_spec(v0, u);
    let h = pmul(dt, (1int, 2int));
    let k2 = d.deriv_spec(padd(v0, pmul(h, k1)), u);
    let k3 = d.deriv_spec(padd(v0, pmul(h, k2)), u);
    let k4 = d.deriv_spec(padd(v0, pmul(dt, k3)), u);
    let s = padd(padd(padd(k1, pmul((2int, 1int), k2)), pmul((2int, 1int), k3)), k4);
    padd(v0, pmul(pmul(dt, (1int, 6int)), s))
}

/// The stored value of one step: the exact step computed with each
/// intermediate reduced, `None` when one leaves the stored range.
pub open spec fn rk4_opt<D: DynamicsModel>(
    d: D,
    v0: (int, int),
    u: (int, int),
    dt: (int, int),
) -> Option<(int, int)> {
    match d.deriv_opt(v0, u) {
        Option::None => None,
        Option::Some(k1) => match mmul(dt, (1int, 2int)) {
            Option::None => None,
            Option::Some(h) => match mmul(h, k1) {
                Option::None => None,
                Option::Some(hk1) => match madd(v0, hk1) {
                    Option::None => None,
                    Option::Some(v2) => match d.deriv_opt(v2, u) {
                        Option::None => None,
                        Option::Some(k2) => match mmul(h, k2) {
                            Option::None => None,
                            Option::Some(hk2) => match madd(v0, hk2) {
                                Option::None => None,
                                Option::Some(v3) => match d.deriv_opt(v3, u) {
                                    Option::None => None,
                                    Option::Some(k3) => match mmul(dt, k3) {
                                        Option::None => None,
                                        Option::Some(dk3) => match madd(v0, dk3) {
                                            Option::None => None,
                                            Option::Some(v4) => match d.deriv_opt(v4, u) {
                                                Option::None => None,
                                                Option::Some(k4) => rk4_tail_opt(
                                                    v0,
                                                    dt,
                                                    k1,
                                                    k2,
                                                    k3,
                                                    k4,
                                                ),
                                            },
                                        },
                                    },
                                },
                            },
                        },
                    },
                },
            },
        },
    }
}

/// The stored weighted combination `v0 + dt/6 * (k1 + 2*k2 + 2*k3 + k4)`.
pub open spec fn rk4_tail_opt(
    v0: (int, int),
    dt: (int, int),
    k1: (int, int),
    k2: (int, int),
    k3: (int, int),
    k4: (int, int),
) -> Option<(int, int)> {
    match mmul((2int, 1int), k2) {
        Option::None => None,
        Option::Some(tk2) => match mmul((2int, 1int), k3) {
            Option::None => None,
            Option::Some(tk3) => match madd(k1, tk2) {
                Option::None => None,
                Option::Some(s1) => match madd(s1, tk3) {
                    Option::None => None,
                    Option::Some(s2) => match madd(s2, k4) {
                        Option::None => None,
                        Option::Some(s3) => match mmul(dt, (1int, 6int)) {
                            Option::None => None,
                            Option::Some(c) => match mmul(c, s3) {
                                Option::None => None,
                                Option::Some(inc) => madd(v0, inc),
                            },
                        },
                    },
                },
            },
        },
    }
}

/// Advance the state of one dynamical element by one step of size `dt`
/// under the held control input `u`; `None` when an exact intermediate
/// leaves the stored range.
pub fn rk4_step<D: DynamicsModel>(d: &D, v0: &Rat, u: &Rat, dt: &Rat) -> (r: Option<Rat>)
    requires
        d.dyn_wf(),
        v0.wf(),
        u.wf(),
        dt.wf(),
    ensures
        omatch(r, rk4_opt(*d, v0@, u@, dt@)),
{
    proof {
        d.lemma_deriv_sound(v0@, u@);
    }
    let k1 = match d.deriv(v0, u) {
        None => {
            return None;
        },
        Some(x) => x,
    };
    let half = Rat::make(1, 2);
    proof {
        lemma_pwf_ops(dt@, half@);
        lemma_norm_opt(pmul(dt@, half@));
    }
    let h = match dt.try_mul(&half) {
        None => {
            return None;
        },
        Some(x) => x,
    };
    let hk1 = match h.try_mul(&k1) {
        None => {
            return None;
        },
        Some(x) => x,
    };
    let v2 = match v0.try_add(&hk1) {
        None => {
            return None;
        },
        Some(x) => x,
    };
    proof {
        d.lemma_deriv_sound(v2@, u@);
    }
    let k2 = match d.deriv(&v2, u) {
        None => {
            return None;
        },
        Some(x) => x,
    };
    let hk2 = match h.try_mul(&k2) {
        None => {
            return None;
        },
        Some(x) => x,
    };
    let v3 = match v0.try_add(&hk2) {
        None => {
            return None;
        },
        Some(x) => x,
    };
    proof {
        d.lemma_deriv_sound(v3@, u@);
    }
    let k3 = match d.deriv(&v3, u) {
        None => {
            return None;
        },
        Some(x) => x,
    };
    let dk3 = match dt.try_mul(&k3) {
        None => {
            return None;
        },
        Some(x) => x,
    };
    let v4 = match v0.try_add(&dk3) {
        None => {
            return None;
        },
        Some(x) => x,
    };
    proof {
        d.lemma_deriv_sound(v4@, u@);
    }
    let k4 = match d.deriv(&v4, u) {
        None => {
            return None;
        },
        Some(x) => x,
    };
    let two = Rat::make(2, 1);
    let tk2 = match two.try_mul(&k2) {
        None => {
            return None;
        },
        Some(x) => x,
    };
    let tk3 = match two.try_mul(&k3) {
        None => {
            return None;
        },
        Some(x) => x,
    };
    let s1 = match k1.try_add(&tk2) {
        None => {
            return None;
        },
        Some(x) => x,
    };
    let s2 = match s1.try_add(&tk3) {
        None => {
            return None;
        },
        Some(x) => x,
    };
    let s3 = match s2.try_add(&k4) {
        None => {
            return None;
        },
        Some(x) => x,
    };
    let sixth = Rat::make(1, 6);
    let c = match dt.try_mul(&sixth) {
        None => {
            return None;
        },
        Some(x) => x,
    };
    let inc = match c.try_mul(&s3) {
        None => {
            return None;
        },
        Some(x) => x,
    };
    v0.try_add(&inc)
}

/// When the stored step exists it is within range and equal as a
/// fraction to the exact step.
pub proof fn lemma_rk4_sound<D: DynamicsModel>(d: D, v0: (int, int), u: (int, int), dt: (int, int))
    requires
        d.dyn_wf(),
        in_range(v0),
        in_range(u),
        in_range(dt),
    ensures
        rk4_opt(d, v0, u, dt) matches Some(q) ==> in_range(q) && rat_eq(q, rk4_spec(d, v0, u, dt)),
{
    let k1_p = d.deriv_spec(v0, u);
    let h_p = pmul(dt, (1int, 2int));
    let a2_p = padd(v0, pmul(h_p, k1_p));
    let k2_p = d.deriv_spec(a2_p, u);
    let a3_p = padd(v0, pmul(h_p, k2_p));
    let k3_p = d.deriv_spec(a3_p, u);
    let a4_p = padd(v0, pmul(dt, k3_p));
    let k4_p = d.deriv_spec(a4_p, u);
    let tk2_p = pmul((2int, 1int), k2_p);
    let tk3_p = pmul((2int, 1int), k3_p);
    let s1_p = padd(k1_p, tk2_p);
    let s2_p = padd(s1_p, tk3_p);
    let s3_p = padd(s2_p, k4_p);
    let c_p = pmul(dt, (1int, 6int));
    let inc_p = pmul(c_p, s3_p);
    d.lemma_deriv_spec_wf(v0, u);
    lemma_pwf_ops(dt, (1int, 2int));
    lemma_pwf_ops(h_p, k1_p);
    lemma_pwf_ops(v0, pmul(h_p, k1_p));
    d.lemma_deriv_spec_wf(a2_p, u);
    lemma_pwf_ops(h_p, k2_p);
    lemma_pwf_ops(v0, pmul(h_p, k2_p));
    d.lemma_deriv_spec_wf(a3_p, u);
    lemma_pwf_ops(dt, k3_p);
    lemma_pwf_ops(v0, pmul(dt, k3_p));
    d.lemma_deriv_spec_wf(a4_p, u);
    lemma_pwf_ops((2int, 1int), k2_p);
    lemma_pwf_ops((2int, 1int), k3_p);
    lemma_pwf_ops(k1_p, tk2_p);
    lemma_pwf_ops(s1_p, tk3_p);
    lemma_pwf_ops(s2_p, k4_p);
    lemma_pwf_ops(dt, (1int, 6int));
    lemma_pwf_ops(c_p, s3_p);
    d.lemma_deriv_sound(v0, u);
    if d.deriv_opt(v0, u) is Some {
        let k1 = d.deriv_opt(v0, u).unwrap();
        lemma_norm_opt(h_p);
        if mmul(dt, (1int, 2int)) is Some {
            let h = mmul(dt, (1int, 2int)).unwrap();
            lemma_pwf_ops(h, k1);
            lemma_norm_opt(pmul(h, k1));
            lemma_pmul_cong(h, h_p, k1, k1_p);
            if mmul(h, k1) is Some {
                let hk1 = mmul(h, k1).unwrap();
                lemma_rat_eq_trans(hk1, pmul(h, k1), pmul(h_p, k1_p));
                lemma_pwf_ops(v0, hk1);
                lemma_norm_opt(padd(v0, hk1));
                lemma_padd_cong(v0, v0, hk1, pmul(h_p, k1_p));
                if madd(v0, hk1) is Some {
                    let v2 = madd(v0, hk1).unwrap();
                    lemma_rat_eq_trans(v2, padd(v0, hk1), a2_p);
                    d.lemma_deriv_sound(v2, u);
                    d.lemma_deriv_spec_cong(v2, a2_p, u, u);
                    if d.deriv_opt(v2, u) is Some {
                        let k2 = d.deriv_opt(v2, u).unwrap();
                        lemma_rat_eq_trans(k2, d.deriv_spec(v2, u), k2_p);
                        lemma_pwf_ops(h, k2);
                        lemma_norm_opt(pmul(h, k2));
                        lemma_pmul_cong(h, h_p, k2, k2_p);
                        if mmul(h, k2) is Some {
                            let hk2 = mmul(h, k2).unwrap();
                            lemma_rat_eq_trans(hk2, pmul(h, k2), pmul(h_p, k2_p));
                            lemma_pwf_ops(v0, hk2);
                            lemma_norm_opt(padd(v0, hk2));
                            lemma_padd_cong(v0, v0, hk2, pmul(h_p, k2_p));
                            if madd(v0, hk2) is Some {
                                let v3 = madd(v0, hk2).unwrap();
                                lemma_rat_eq_trans(v3, padd(v0, hk2), a3_p);
                                d.lemma_deriv_sound(v3, u);
                                d.lemma_deriv_spec_cong(v3, a3_p, u, u);
                                if d.deriv_opt(v3, u) is Some {
                                    let k3 = d.deriv_opt(v3, u).unwrap();
                                    lemma_rat_eq_trans(k3, d.deriv_spec(v3, u), k3_p);
                                    lemma_pwf_ops(dt, k3);
                                    lemma_norm_opt(pmul(dt, k3));
                                    lemma_pmul_cong(dt, dt, k3, k3_p);
                                    if mmul(dt, k3) is Some {
                                        let dk3 = mmul(dt, k3).unwrap();
                                        lemma_rat_eq_trans(dk3, pmul(dt, k3), pmul(dt, k3_p));
                                        lemma_pwf_ops(v0, dk3);
                                        lemma_norm_opt(padd(v0, dk3));
                                        lemma_padd_cong(v0, v0, dk3, pmul(dt, k3_p));
                                        if madd(v0, dk3) is Some {
                                            let v4 = madd(v0, dk3).unwrap();
                                            lemma_rat_eq_trans(v4, padd(v0, dk3), a4_p);
                                            d.lemma_deriv_sound(v4, u);
                                            d.lemma_deriv_spec_cong(v4, a4_p, u, u);
                                            if d.deriv_opt(v4, u) is Some {
                                                let k4 = d.deriv_opt(v4, u).unwrap();
                                                lemma_rat_eq_trans(k4, d.deriv_spec(v4, u), k4_p);
                                                lemma_rk4_tail_sound(
                                                    v0,
                                                    dt,
                                                    k1,
                                                    k2,
                                                    k3,
                                                    k4,
                                                    k1_p,
                                                    k2_p,
                                                    k3_p,
                                                    k4_p,
                                                );
                                            }
                                        }
                                    }
                                }
                            }
                        }
                    }
                }
            }
        }
    }
}

/// Soundness of the stored weighted combination against its exact form.
proof fn lemma_rk4_tail_sound(
    v0: (int, int),
    dt: (int, int),
    k1: (int, int),
    k2: (int, int),
    k3: (int, int),
    k4: (int, int),
    k1_p: (int, int),
    k2_p: (int, int),
    k3_p: (int, int),
    k4_p: (int, int),
)
    requires
        in_range(v0),
        in_range(dt),
        in_range(k1),
        in_range(k2),
        in_range(k3),
        in_range(k4),
        pwf(k1_p),
        pwf(k2_p),
        pwf(k3_p),
        pwf(k4_p),
        rat_eq(k1, k1_p),
        rat_eq(k2, k2_p),
        rat_eq(k3, k3_p),
        rat_eq(k4, k4_p),
    ensures
        rk4_tail_opt(v0, dt, k1, k2, k3, k4) matches Some(q) ==> in_range(q) && rat_eq(
            q,
            padd(
                v0,
                pmul(
                    pmul(dt, (1int, 6int)),
                    padd(
                        padd(padd(k1_p, pmul((2int, 1int), k2_p)), pmul((2int, 1int), k3_p)),
                        k4_p,
                    ),
                ),
            ),
        ),
{
    let tk2_p = pmul((2int, 1int), k2_p);
    let tk3_p = pmul((2int, 1int), k3_p);
    let s1_p = padd(k1_p, tk2_p);
    let s2_p = padd(s1_p, tk3_p);
    let s3_p = padd(s2_p, k4_p);
    let c_p = pmul(dt, (1int, 6int));
    let inc_p = pmul(c_p, s3_p);
    lemma_pwf_ops((2int, 1int), k2_p);
    lemma_pwf_ops((2int, 1int), k3_p);
    lemma_pwf_ops(k1_p, tk2_p);
    lemma_pwf_ops(s1_p, tk3_p);
    lemma_pwf_ops(s2_p, k4_p);
    lemma_pwf_ops(dt, (1int, 6int));
    lemma_pwf_ops(c_p, s3_p);
    lemma_pwf_ops((2int, 1int), k2);
    lemma_norm_opt(pmul((2int, 1int), k2));
    lemma_pmul_cong((2int, 1int), (2int, 1int), k2, k2_p);
    if mmul((2int, 1int), k2) is Some {
        let tk2 = mmul((2int, 1int), k2).unwrap();
        lemma_rat_eq_trans(tk2, pmul((2int, 1int), k2), tk2_p);
        lemma_pwf_ops((2int, 1int), k3);
        lemma_norm_opt(pmul((2int, 1int), k3));
        lemma_pmul_cong((2int, 1int), (2int, 1int), k3, k3_p);
        if mmul((2int, 1int), k3) is Some {
            let tk3 = mmul((2int, 1int), k3).unwrap();
            lemma_rat_eq_trans(tk3, pmul((2int, 1int), k3), tk3_p);
            lemma_pwf_ops(k1, tk2);
            lemma_norm_opt(padd(k1, tk2));
            lemma_padd_cong(k1, k1_p, tk2, tk2_p);
            if madd(k1, tk2) is Some {
                let s1 = madd(k1, tk2).unwrap();
                lemma_rat_eq_trans(s1, padd(k1, tk2), s1_p);
                lemma_pwf_ops(s1, tk3);
                lemma_norm_opt(padd(s1, tk3));
                lemma_padd_cong(s1, s1_p, tk3, tk3_p);
                if madd(s1, tk3) is Some {
                    let s2 = madd(s1, tk3).unwrap();
                    lemma_rat_eq_trans(s2, padd(s1, tk3), s2_p);
                    lemma_pwf_ops(s2, k4);
                    lemma_norm_opt(padd(s2, k4));
                    lemma_padd_cong(s2, s2_p, k4, k4_p);
                    if madd(s2, k4) is Some {
                        let s3 = madd(s2, k4).unwrap();
                        lemma_rat_eq_trans(s3, padd(s2, k4), s3_p);
                        lemma_norm_opt(c_p);
                        if mmul(dt, (1int, 6int)) is Some {
                            let c = mmul(dt, (1int, 6int)).unwrap();
                            lemma_pwf_ops(c, s3);
                            lemma_norm_opt(pmul(c, s3));
                            lemma_pmul_cong(c, c_p, s3, s3_p);
                            if mmul(c, s3) is Some {
                                let inc = mmul(c, s3).unwrap();
                                lemma_rat_eq_trans(inc, pmul(c, s3), inc_p);
                                lemma_pwf_ops(v0, inc);
                                lemma_norm_opt(padd(v0, inc));
                                lemma_padd_cong(v0, v0, inc, inc_p);
                                if madd(v0, inc) is Some {
                                    let q = madd(v0, inc).unwrap();
                                    lemma_rat_eq_trans(q, padd(v0, inc), padd(v0, inc_p));
                                }
                            }
                        }
                    }
                }
            }
        }
    }
}

/// At rest under a zero control the stored step, when it exists, is the
/// zero fraction: the state is a fixed point.
pub proof fn lemma_rk4_zero<D: DynamicsModel>(d: D, v0: (int, int), u: (int, int), dt: (int, int))
    requires
        d.dyn_wf(),
        in_range(v0),
        in_range(u),
        in_range(dt),
        v0.0 == 0,
        u.0 == 0,
    ensures
        rk4_opt(d, v0, u, dt) matches Some(q) ==> q == (0int, 1int),
{
    let z = (0int, 1int);
    d.lemma_deriv_zero(v0, u);
    lemma_norm_opt(v0);
    lemma_padd_zero_unit(v0);
    lemma_padd_zero_unit(z);
    if d.deriv_opt(v0, u) is Some {
        let k1 = d.deriv_opt(v0, u).unwrap();
        if mmul(dt, (1int, 2int)) is Some {
            let h = mmul(dt, (1int, 2int)).unwrap();
            lemma_pwf_ops(h, k1);
            lemma_pmul_num_zero(h, k1);
            lemma_norm_opt(pmul(h, k1));
            d.lemma_deriv_zero(z, u);
            if d.deriv_opt(z, u) is Some {
                let k2 = d.deriv_opt(z, u).unwrap();
                lemma_pwf_ops(h, k2);
                lemma_pmul_num_zero(h, k2);
                lemma_norm_opt(pmul(h, k2));
                if d.deriv_opt(z, u) is Some {
                    let k3 = d.deriv_opt(z, u).unwrap();
                    lemma_pwf_ops(dt, k3);
                    lemma_pmul_num_zero(dt, k3);
                    lemma_norm_opt(pmul(dt, k3));
                    let k4 = k3;
                    lemma_pwf_ops((2int, 1int), k2);
                    lemma_pmul_num_zero((2int, 1int), k2);
                    lemma_norm_opt(pmul((2int, 1int), k2));
                    lemma_norm_opt(z);
                    if mmul(dt, (1int, 6int)) is Some {
                        let c = mmul(dt, (1int, 6int)).unwrap();
                        lemma_pwf_ops(c, z);
                        lemma_pmul_num_zero(c, z);
                        lemma_norm_opt(pmul(c, z));
                    }
                }
            }
        }
    }
}

/// The fourth Taylor polynomial of `exp(-e)`:
/// `1 - e + e^2/2 - e^3/6 + e^4/24`.
pub open spec fn taylor4_neg(e: (int, int)) -> (int, int) {
    padd(
        padd(
            padd(padd((1int, 1int), pneg(e)), pmul(pmul(e, e), (1int, 2int))),
            pneg(pmul(pmul(pmul(e, e), e), (1int, 6int))),
        ),
        pmul(pmul(pmul(pmul(e, e), e), e), (1int, 24int)),
    )
}

/// A factor pulls through to the right of another product.
proof fn lemma_pull_left(w: (int, int), v0: (int, int), aa: (int, int))
    ensures
        pmul(w, pmul(v0, aa)) == pmul(v0, pmul(w, aa)),
{
    lemma_pmul_assoc(w, v0, aa);
    lemma_pmul_comm(w, v0);
    lemma_pmul_assoc(v0, w, aa);
}

/// One damping slope factors through the state: the derivative of a state
/// `x = v0 * aa` is `v0 * (-(k * aa))`.
proof fn lemma_linear_slope(kk: (int, int), v0: (int, int), xx: (int, int), aa: (int, int))
    requires
        pwf(kk),
        pwf(v0),
        pwf(xx),
        pwf(aa),
        rat_eq(xx, pmul(v0, aa)),
    ensures
        rat_eq(pneg(pmul(kk, xx)), pmul(v0, pneg(pmul(kk, aa)))),
{
    lemma_pwf_ops(v0, aa);
    lemma_pwf_ops(kk, xx);
    lemma_pwf_ops(kk, pmul(v0, aa));
    lemma_pmul_cong(kk, kk, xx, pmul(v0, aa));
    lemma_pull_left(kk, v0, aa);
    lemma_pneg_cong(pmul(kk, xx), pmul(v0, pmul(kk, aa)));
    lemma_pmul_pneg(v0, pmul(kk, aa));
}

/// One integrator stage factors through the state: starting from
/// `x = v0 * aa`, the stage state `v0 + g * (-(k * x))` is
/// `v0 * (1 - (g * k) * aa)`.
proof fn lemma_linear_stage(
    kk: (int, int),
    g: (int, int),
    v0: (int, int),
    xx: (int, int),
    aa: (int, int),
)
    requires
        pwf(kk),
        pwf(g),
        pwf(v0),
        pwf(xx),
        pwf(aa),
        rat_eq(xx, pmul(v0, aa)),
    ensures
        rat_eq(
            padd(v0, pmul(g, pneg(pmul(kk, xx)))),
            pmul(v0, padd((1int, 1int), pneg(pmul(pmul(g, kk), aa)))),
        ),
{
    let one = (1int, 1int);
    let gk = pmul(g, kk);
    let z = pmul(gk, aa);
    lemma_pwf_ops(v0, aa);
    lemma_pwf_ops(kk, xx);
    lemma_pwf_ops(kk, pmul(v0, aa));
    lemma_pwf_ops(g, kk);
    lemma_pwf_ops(gk, aa);
    lemma_pwf_ops(v0, z);
    lemma_pmul_cong(kk, kk, xx, pmul(v0, aa));
    lemma_pmul_pneg(g, pmul(kk, xx));
    lemma_pwf_ops(g, pmul(kk, xx));
    lemma_pwf_ops(g, pmul(kk, pmul(v0, aa)));
    lemma_pmul_cong(g, g, pmul(kk, xx), pmul(kk, pmul(v0, aa)));
    lemma_pmul_assoc(g, kk, pmul(v0, aa));
    lemma_pull_left(gk, v0, aa);
    lemma_rat_eq_trans(pmul(g, pmul(kk, xx)), pmul(g, pmul(kk, pmul(v0, aa))), pmul(v0, z));
    lemma_pneg_cong(pmul(g, pmul(kk, xx)), pmul(v0, z));
    lemma_pmul_pneg(v0, z);
    lemma_pmul_one(v0);
    lemma_pwf_ops(v0, pneg(z));
    lemma_pwf_ops(pmul(v0, one), pmul(v0, pneg(z)));
    lemma_padd_cong(pmul(v0, one), pmul(v0, one), pmul(g, pneg(pmul(kk, xx))), pmul(v0, pneg(z)));
    lemma_pdist(v0, one, pneg(z));
    lemma_pwf_ops(one, pneg(z));
    lemma_rat_eq_trans(
        padd(v0, pmul(g, pneg(pmul(kk, xx)))),
        padd(pmul(v0, one), pmul(v0, pneg(z))),
        pmul(v0, padd(one, pneg(z))),
    );
}

/// One exact step of the integrator on the pure damping law
/// `dv/dt = -k * v` multiplies the state by the fourth Taylor polynomial
/// of `exp(-(k * dt))`: the step agrees with the closed form
/// `v0 * exp(-(k * dt))` up to the fourth power of the step size, which
/// is the fourth-order local accuracy of the scheme.
pub proof fn lemma_rk4_linear_taylor(
    d: LinearDamping,
    v0: (int, int),
    u: (int, int),
    dt: (int, int),
)
    requires
        d.dyn_wf(),
        pwf(v0),
        pwf(u),
        pwf(dt),
    ensures
        rat_eq(rk4_spec(d, v0, u, dt), pmul(v0, taylor4_neg(pmul(d.k@, dt)))),
{
    let kk = d.k@;
    let e = pmul(kk, dt);
    let x = e.0;
    let y = e.1;
    let one = (1int, 1int);
    let half = (1int, 2int);
    let two = (2int, 1int);
    let sixth = (1int, 6int);
    let h = pmul(dt, half);
    let hk = pmul(h, kk);
    let dk = pmul(dt, kk);
    let cc = pmul(dt, sixth);
    lemma_pwf_ops(kk, dt);
    lemma_pwf_ops(dt, half);
    lemma_pwf_ops(h, kk);
    lemma_pwf_ops(dt, kk);
    lemma_pwf_ops(dt, sixth);
    // The step, written out for the damping derivative.
    let k1 = pneg(pmul(kk, v0));
    let a2 = padd(v0, pmul(h, k1));
    let k2 = pneg(pmul(kk, a2));
    let a3 = padd(v0, pmul(h, k2));
    let k3 = pneg(pmul(kk, a3));
    let a4 = padd(v0, pmul(dt, k3));
    let k4 = pneg(pmul(kk, a4));
    let s = padd(padd(padd(k1, pmul(two, k2)), pmul(two, k3)), k4);
    let res = padd(v0, pmul(pmul(dt, sixth), s));
    assert(rk4_spec(d, v0, u, dt) == res);
    lemma_pwf_ops(kk, v0);
    lemma_pwf_ops(h, k1);
    lemma_pwf_ops(v0, pmul(h, k1));
    lemma_pwf_ops(kk, a2);
    lemma_pwf_ops(h, k2);
    lemma_pwf_ops(v0, pmul(h, k2));
    lemma_pwf_ops(kk, a3);
    lemma_pwf_ops(dt, k3);
    lemma_pwf_ops(v0, pmul(dt, k3));
    lemma_pwf_ops(kk, a4);
    lemma_pwf_ops(two, k2);
    lemma_pwf_ops(two, k3);
    // Factor the state out of every stage: a_i = v0 * aa_i.
    lemma_pmul_one(v0);
    let aa2 = padd(one, pneg(pmul(hk, one)));
    lemma_linear_stage(kk, h, v0, v0, one);
    lemma_pwf_ops(hk, one);
    lemma_pwf_ops(one, pneg(pmul(hk, one)));
    let aa3 = padd(one, pneg(pmul(hk, aa2)));
    lemma_linear_stage(kk, h, v0, a2, aa2);
    lemma_pwf_ops(hk, aa2);
    lemma_pwf_ops(one, pneg(pmul(hk, aa2)));
    let aa4 = padd(one, pneg(pmul(dk, aa3)));
    lemma_linear_stage(kk, dt, v0, a3, aa3);
    lemma_pwf_ops(dk, aa3);
    lemma_pwf_ops(one, pneg(pmul(dk, aa3)));
    // Factor the state out of every slope: k_i = v0 * c_i.
    let c1 = pneg(pmul(kk, one));
    let c2 = pneg(pmul(kk, aa2));
    let c3 = pneg(pmul(kk, aa3));
    let c4 = pneg(pmul(kk, aa4));
    lemma_linear_slope(kk, v0, v0, one);
    lemma_linear_slope(kk, v0, a2, aa2);
    lemma_linear_slope(kk, v0, a3, aa3);
    lemma_linear_slope(kk, v0, a4, aa4);
    lemma_pwf_ops(kk, one);
    lemma_pwf_ops(kk, aa2);
    lemma_pwf_ops(kk, aa3);
    lemma_pwf_ops(kk, aa4);
    // Factor the state out of the weighted sum: s = v0 * ss.
    let tc2 = pmul(two, c2);
    let tc3 = pmul(two, c3);
    let s1p = padd(c1, tc2);
    let s2p = padd(s1p, tc3);
    let ss = padd(s2p, c4);
    lemma_pwf_ops(two, c2);
    lemma_pwf_ops(two, c3);
    lemma_pwf_ops(c1, tc2);
    lemma_pwf_ops(s1p, tc3);
    lemma_pwf_ops(s2p, c4);
    lemma_pwf_ops(v0, c1);
    lemma_pwf_ops(v0, c2);
    lemma_pwf_ops(v0, c3);
    lemma_pwf_ops(v0, c4);
    lemma_pwf_ops(v0, tc2);
    lemma_pwf_ops(v0, tc3);
    lemma_pwf_ops(two, pmul(v0, c2));
    lemma_pmul_cong(two, two, k2, pmul(v0, c2));
    lemma_pull_left(two, v0, c2);
    lemma_rat_eq_trans(pmul(two, k2), pmul(two, pmul(v0, c2)), pmul(v0, tc2));
    lemma_pmul_cong(two, two, k3, pmul(v0, c3));
    lemma_pwf_ops(two, pmul(v0, c3));
    lemma_pull_left(two, v0, c3);
    lemma_rat_eq_trans(pmul(two, k3), pmul(two, pmul(v0, c3)), pmul(v0, tc3));
    lemma_pwf_ops(k1, pmul(two, k2));
    lemma_pwf_ops(pmul(v0, c1), pmul(v0, tc2));
    lemma_padd_cong(k1, pmul(v0, c1), pmul(two, k2), pmul(v0, tc2));
    lemma_pdist(v0, c1, tc2);
    lemma_pwf_ops(v0, s1p);
    lemma_rat_eq_trans(
        padd(k1, pmul(two, k2)),
        padd(pmul(v0, c1), pmul(v0, tc2)),
        pmul(v0, s1p),
    );
    lemma_pwf_ops(padd(k1, pmul(two, k2)), pmul(two, k3));
    lemma_pwf_ops(pmul(v0, s1p), pmul(v0, tc3));
    lemma_padd_cong(padd(k1, pmul(two, k2)), pmul(v0, s1p), pmul(two, k3), pmul(v0, tc3));
    lemma_pdist(v0, s1p, tc3);
    lemma_pwf_ops(v0, s2p);
    lemma_rat_eq_trans(
        padd(padd(k1, pmul(two, k2)), pmul(two, k3)),
        padd(pmul(v0, s1p), pmul(v0, tc3)),
        pmul(v0, s2p),
    );
    lemma_pwf_ops(padd(padd(k1, pmul(two, k2)), pmul(two, k3)), k4);
    lemma_pwf_ops(pmul(v0, s2p), pmul(v0, c4));
    lemma_padd_cong(padd(padd(k1, pmul(two, k2)), pmul(two, k3)), pmul(v0, s2p), k4, pmul(v0, c4));
    lemma_pdist(v0, s2p, c4);
    lemma_pwf_ops(v0, ss);
    lemma_rat_eq_trans(s, padd(pmul(v0, s2p), pmul(v0, c4)), pmul(v0, ss));
    // Factor the state out of the whole step: res = v0 * ff.
    let zz = pmul(cc, ss);
    let ff = padd(one, zz);
    lemma_pwf_ops(cc, ss);
    lemma_pwf_ops(cc, pmul(v0, ss));
    lemma_pmul_cong(cc, cc, s, pmul(v0, ss));
    lemma_pull_left(cc, v0, ss);
    lemma_rat_eq_trans(pmul(cc, s), pmul(cc, pmul(v0, ss)), pmul(v0, zz));
    lemma_pwf_ops(cc, s);
    lemma_pwf_ops(v0, zz);
    lemma_pwf_ops(pmul(v0, one), pmul(v0, zz));
    lemma_padd_cong(pmul(v0, one), pmul(v0, one), pmul(cc, s), pmul(v0, zz));
    lemma_pdist(v0, one, zz);
    lemma_pwf_ops(one, zz);
    lemma_rat_eq_trans(res, padd(pmul(v0, one), pmul(v0, zz)), pmul(v0, ff));
    // Factor the damping coefficient out of the weighted sum:
    // ss = -(k * sp), with sp = 1 + 2*aa2 + 2*aa3 + aa4.
    let ta2 = pmul(two, aa2);
    let ta3 = pmul(two, aa3);
    let u1s = padd(one, ta2);
    let u2s = padd(u1s, ta3);
    let sp = padd(u2s, aa4);
    lemma_pwf_ops(two, aa2);
    lemma_pwf_ops(two, aa3);
    lemma_pwf_ops(one, ta2);
    lemma_pwf_ops(u1s, ta3);
    lemma_pwf_ops(u2s, aa4);
    lemma_pwf_ops(kk, u1s);
    lemma_pwf_ops(kk, u2s);
    lemma_pwf_ops(kk, sp);
    lemma_pwf_ops(kk, ta2);
    lemma_pwf_ops(kk, ta3);
    lemma_pmul_pneg(two, pmul(kk, aa2));
    lemma_pull_left(two, kk, aa2);
    lemma_pmul_pneg(two, pmul(kk, aa3));
    lemma_pull_left(two, kk, aa3);
    assert(tc2 == pneg(pmul(kk, ta2)));
    assert(tc3 == pneg(pmul(kk, ta3)));
    lemma_pneg_padd(pmul(kk, one), pmul(kk, ta2));
    lemma_pdist(kk, one, ta2);
    lemma_pwf_ops(pmul(kk, one), pmul(kk, ta2));
    lemma_pneg_cong(padd(pmul(kk, one), pmul(kk, ta2)), pmul(kk, u1s));
    assert(rat_eq(s1p, pneg(pmul(kk, u1s))));
    lemma_padd_cong(s1p, pneg(pmul(kk, u1s)), tc3, pneg(pmul(kk, ta3)));
    lemma_pneg_padd(pmul(kk, u1s), pmul(kk, ta3));
    lemma_pdist(kk, u1s, ta3);
    lemma_pwf_ops(pmul(kk, u1s), pmul(kk, ta3));
    lemma_pwf_ops(pneg(pmul(kk, u1s)), pneg(pmul(kk, ta3)));
    lemma_pneg_cong(padd(pmul(kk, u1s), pmul(kk, ta3)), pmul(kk, u2s));
    lemma_rat_eq_trans(
        s2p,
        padd(pneg(pmul(kk, u1s)), pneg(pmul(kk, ta3))),
        pneg(pmul(kk, u2s)),
    );
    lemma_padd_cong(s2p, pneg(pmul(kk, u2s)), c4, pneg(pmul(kk, aa4)));
    lemma_pneg_padd(pmul(kk, u2s), pmul(kk, aa4));
    lemma_pdist(kk, u2s, aa4);
    lemma_pwf_ops(pmul(kk, u2s), pmul(kk, aa4));
    lemma_pwf_ops(pneg(pmul(kk, u2s)), pneg(pmul(kk, aa4)));
    lemma_pneg_cong(padd(pmul(kk, u2s), pmul(kk, aa4)), pmul(kk, sp));
    lemma_rat_eq_trans(
        ss,
        padd(pneg(pmul(kk, u2s)), pneg(pmul(kk, aa4))),
        pneg(pmul(kk, sp)),
    );
    // zz = -(ec * sp) with ec = cc * k, and so ff = 1 - ec * sp.
    let ec = pmul(cc, kk);
    let ps = pmul(ec, sp);
    let gg = padd(one, pneg(ps));
    lemma_pwf_ops(cc, kk);
    lemma_pwf_ops(ec, sp);
    lemma_pwf_ops(cc, pneg(pmul(kk, sp)));
    lemma_pmul_cong(cc, cc, ss, pneg(pmul(kk, sp)));
    lemma_pmul_pneg(cc, pmul(kk, sp));
    lemma_pmul_assoc(cc, kk, sp);
    lemma_rat_eq_trans(zz, pmul(cc, pneg(pmul(kk, sp))), pneg(ps));
    lemma_pwf_ops(one, pneg(ps));
    lemma_padd_cong(one, one, zz, pneg(ps));
    assert(rat_eq(ff, gg));
    // Pin every coefficient to its polynomial in the components of
    // e = k * dt.
    let x2 = x * x;
    let x3 = x2 * x;
    let x4 = x3 * x;
    let y2 = y * y;
    let y3 = y2 * y;
    let y4 = y3 * y;
    let y5 = y4 * y;
    let y6 = y5 * y;
    let y7 = y6 * y;
    let y8 = y4 * y4;
    let y9 = y5 * y4;
    let y10 = y6 * y4;
    assert(y2 * y3 == y5 && y3 * y3 == y6 && y * y3 == y4 && y3 * y4 == y7 && y6 * y10 == y9 * y7
        && y5 * y10 == y8 * y7 && y4 * y10 == y7 * y7 && y3 * y10 == y6 * y7) by (nonlinear_arith)
        requires
            y2 == y * y,
            y3 == y2 * y,
            y4 == y3 * y,
            y5 == y4 * y,
            y6 == y5 * y,
            y7 == y6 * y,
            y8 == y4 * y4,
            y9 == y5 * y4,
            y10 == y6 * y4,
    {}
    assert(hk.0 == x && hk.1 == 2 * y) by (nonlinear_arith)
        requires
            hk.0 == (dt.0 * 1) * kk.0,
            hk.1 == (dt.1 * 2) * kk.1,
            x == kk.0 * dt.0,
            y == kk.1 * dt.1,
    {}
    assert(dk.0 == x && dk.1 == y) by (nonlinear_arith)
        requires
            dk.0 == dt.0 * kk.0,
            dk.1 == dt.1 * kk.1,
            x == kk.0 * dt.0,
            y == kk.1 * dt.1,
    {}
    assert(ec.0 == x && ec.1 == 6 * y) by (nonlinear_arith)
        requires
            ec.0 == (dt.0 * 1) * kk.0,
            ec.1 == (dt.1 * 6) * kk.1,
            x == kk.0 * dt.0,
            y == kk.1 * dt.1,
    {}
    assert(aa2.0 == 2 * y - x && aa2.1 == 2 * y) by (nonlinear_arith)
        requires
            aa2.0 == 1 * (hk.1 * 1) + (-(hk.0 * 1)) * 1,
            aa2.1 == 1 * (hk.1 * 1),
            hk.0 == x,
            hk.1 == 2 * y,
    {}
    assert(aa3.0 == 4 * y2 - 2 * x * y + x2 && aa3.1 == 4 * y2) by (nonlinear_arith)
        requires
            aa3.0 == 1 * (hk.1 * aa2.1) + (-(hk.0 * aa2.0)) * 1,
            aa3.1 == 1 * (hk.1 * aa2.1),
            hk.0 == x,
            hk.1 == 2 * y,
            aa2.0 == 2 * y - x,
            aa2.1 == 2 * y,
            y2 == y * y,
            x2 == x * x,
    {}
    assert(aa4.0 == 4 * y3 - 4 * x * y2 + 2 * x2 * y - x3 && aa4.1 == 4 * y3) by (nonlinear_arith)
        requires
            aa4.0 == 1 * (dk.1 * aa3.1) + (-(dk.0 * aa3.0)) * 1,
            aa4.1 == 1 * (dk.1 * aa3.1),
            dk.0 == x,
            dk.1 == y,
            aa3.0 == 4 * y2 - 2 * x * y + x2,
            aa3.1 == 4 * y2,
            y2 == y * y,
            y3 == y2 * y,
            x2 == x * x,
            x3 == x2 * x,
    {}
    assert(ta2.0 == 4 * y - 2 * x && ta2.1 == 2 * y) by (nonlinear_arith)
        requires
            ta2.0 == 2 * aa2.0,
            ta2.1 == 1 * aa2.1,
            aa2.0 == 2 * y - x,
            aa2.1 == 2 * y,
    {}
    assert(u1s.0 == 6 * y - 2 * x && u1s.1 == 2 * y) by (nonlinear_arith)
        requires
            u1s.0 == 1 * ta2.1 + ta2.0 * 1,
            u1s.1 == 1 * ta2.1,
            ta2.0 == 4 * y - 2 * x,
            ta2.1 == 2 * y,
    {}
    assert(ta3.0 == 8 * y2 - 4 * x * y + 2 * x2 && ta3.1 == 4 * y2) by (nonlinear_arith)
        requires
            ta3.0 == 2 * aa3.0,
            ta3.1 == 1 * aa3.1,
            aa3.0 == 4 * y2 - 2 * x * y + x2,
            aa3.1 == 4 * y2,
    {}
    assert(u1s.0 * ta3.1 == 24 * y3 - 8 * x * y2) by (nonlinear_arith)
        requires
            u1s.0 == 6 * y - 2 * x,
            ta3.1 == 4 * y2,
            y3 == y2 * y,
    {}
    vstd::arithmetic::mul::lemma_mul_is_distributive_add_other_way(
        u1s.1,
        8 * y2 - 4 * x * y,
        2 * x2,
    );
    vstd::arithmetic::mul::lemma_mul_is_distributive_sub_other_way(u1s.1, 8 * y2, 4 * x * y);
    assert((8 * y2) * u1s.1 == 16 * y3) by (nonlinear_arith)
        requires
            u1s.1 == 2 * y,
            y3 == y2 * y,
    {}
    assert((4 * x * y) * u1s.1 == 8 * x * y2) by (nonlinear_arith)
        requires
            u1s.1 == 2 * y,
            y2 == y * y,
    {}
    assert((2 * x2) * u1s.1 == 4 * x2 * y) by (nonlinear_arith)
        requires
            u1s.1 == 2 * y,
    {}
    assert(ta3.0 * u1s.1 == 16 * y3 - 8 * x * y2 + 4 * x2 * y);
    assert(u2s.0 == 40 * y3 - 16 * x * y2 + 4 * x2 * y) by (nonlinear_arith)
        requires
            u2s.0 == u1s.0 * ta3.1 + ta3.0 * u1s.1,
            u1s.0 * ta3.1 == 24 * y3 - 8 * x * y2,
            ta3.0 * u1s.1 == 16 * y3 - 8 * x * y2 + 4 * x2 * y,
    {}
    assert(u2s.1 == 8 * y3) by (nonlinear_arith)
        requires
            u2s.1 == u1s.1 * ta3.1,
            u1s.1 == 2 * y,
            ta3.1 == 4 * y2,
            y3 == y2 * y,
    {}
    vstd::arithmetic::mul::lemma_mul_is_distributive_add_other_way(
        aa4.1,
        40 * y3 - 16 * x * y2,
        4 * x2 * y,
    );
    vstd::arithmetic::mul::lemma_mul_is_distributive_sub_other_way(aa4.1, 40 * y3, 16 * x * y2);
    assert((40 * y3) * aa4.1 == 160 * y6) by (nonlinear_arith)
        requires
            aa4.1 == 4 * y3,
            y3 * y3 == y6,
    {}
    assert((16 * x * y2) * aa4.1 == 64 * x * y5) by (nonlinear_arith)
        requires
            aa4.1 == 4 * y3,
            y2 * y3 == y5,
    {}
    assert((4 * x2 * y) * aa4.1 == 16 * x2 * y4) by (nonlinear_arith)
        requires
            aa4.1 == 4 * y3,
            y * y3 == y4,
    {}
    assert(u2s.0 * aa4.1 == 160 * y6 - 64 * x * y5 + 16 * x2 * y4);
    vstd::arithmetic::mul::lemma_mul_is_distributive_sub_other_way(
        u2s.1,
        4 * y3 - 4 * x * y2 + 2 * x2 * y,
        x3,
    );
    vstd::arithmetic::mul::lemma_mul_is_distributive_add_other_way(
        u2s.1,
        4 * y3 - 4 * x * y2,
        2 * x2 * y,
    );
    vstd::arithmetic::mul::lemma_mul_is_distributive_sub_other_way(u2s.1, 4 * y3, 4 * x * y2);
    assert((4 * y3) * u2s.1 == 32 * y6) by (nonlinear_arith)
        requires
            u2s.1 == 8 * y3,
            y3 * y3 == y6,
    {}
    assert((4 * x * y2) * u2s.1 == 32 * x * y5) by (nonlinear_arith)
        requires
            u2s.1 == 8 * y3,
            y2 * y3 == y5,
    {}
    assert((2 * x2 * y) * u2s.1 == 16 * x2 * y4) by (nonlinear_arith)
        requires
            u2s.1 == 8 * y3,
            y * y3 == y4,
    {}
    assert(x3 * u2s.1 == 8 * x3 * y3) by (nonlinear_arith)
        requires
            u2s.1 == 8 * y3,
    {}
    assert(aa4.0 * u2s.1 == 32 * y6 - 32 * x * y5 + 16 * x2 * y4 - 8 * x3 * y3);
    assert(sp.0 == 192 * y6 - 96 * x * y5 + 32 * x2 * y4 - 8 * x3 * y3) by (nonlinear_arith)
        requires
            sp.0 == u2s.0 * aa4.1 + aa4.0 * u2s.1,
            u2s.0 * aa4.1 == 160 * y6 - 64 * x * y5 + 16 * x2 * y4,
            aa4.0 * u2s.1 == 32 * y6 - 32 * x * y5 + 16 * x2 * y4 - 8 * x3 * y3,
    {}
    assert(sp.1 == 32 * y6) by (nonlinear_arith)
        requires
            sp.1 == u2s.1 * aa4.1,
            u2s.1 == 8 * y3,
            aa4.1 == 4 * y3,
            y3 * y3 == y6,
    {}
    vstd::arithmetic::mul::lemma_mul_is_distributive_sub(
        x,
        192 * y6 - 96 * x * y5 + 32 * x2 * y4,
        8 * x3 * y3,
    );
    vstd::arithmetic::mul::lemma_mul_is_distributive_add(
        x,
        192 * y6 - 96 * x * y5,
        32 * x2 * y4,
    );
    vstd::arithmetic::mul::lemma_mul_is_distributive_sub(x, 192 * y6, 96 * x * y5);
    assert(x * (192 * y6) == 192 * x * y6) by (nonlinear_arith) {}
    assert(x * (96 * x * y5) == 96 * x2 * y5) by (nonlinear_arith)
        requires
            x2 == x * x,
    {}
    assert(x * (32 * x2 * y4) == 32 * x3 * y4) by (nonlinear_arith)
        requires
            x3 == x2 * x,
    {}
    assert(x * (8 * x3 * y3) == 8 * x4 * y3) by (nonlinear_arith)
        requires
            x4 == x3 * x,
    {}
    assert(ps.0 == 192 * x * y6 - 96 * x2 * y5 + 32 * x3 * y4 - 8 * x4 * y3);
    assert(ps.1 == 192 * y7) by (nonlinear_arith)
        requires
            ps.1 == ec.1 * sp.1,
            ec.1 == 6 * y,
            sp.1 == 32 * y6,
            y7 == y6 * y,
    {}
    assert(gg.0 == 192 * y7 - 192 * x * y6 + 96 * x2 * y5 - 32 * x3 * y4 + 8 * x4 * y3 && gg.1
        == 192 * y7) by (nonlinear_arith)
        requires
            gg.0 == 1 * ps.1 + (-ps.0) * 1,
            gg.1 == 1 * ps.1,
            ps.0 == 192 * x * y6 - 96 * x2 * y5 + 32 * x3 * y4 - 8 * x4 * y3,
            ps.1 == 192 * y7,
    {}
    // Pin the Taylor polynomial the same way.
    let ta = padd(one, pneg(e));
    let e2 = pmul(e, e);
    let e2h = pmul(e2, half);
    let tb = padd(ta, e2h);
    let e3 = pmul(e2, e);
    let e3s = pmul(e3, sixth);
    let tcp = padd(tb, pneg(e3s));
    let e4 = pmul(e3, e);
    let e4t = pmul(e4, (1int, 24int));
    let tt = padd(tcp, e4t);
    assert(taylor4_neg(e) == tt);
    lemma_pwf_ops(one, pneg(e));
    lemma_pwf_ops(e, e);
    lemma_pwf_ops(e2, half);
    lemma_pwf_ops(ta, e2h);
    lemma_pwf_ops(e2, e);
    lemma_pwf_ops(e3, sixth);
    lemma_pwf_ops(tb, pneg(e3s));
    lemma_pwf_ops(e3, e);
    lemma_pwf_ops(e4, (1int, 24int));
    lemma_pwf_ops(tcp, e4t);
    assert(e3s.0 == x3 && e3s.1 == 6 * y3) by (nonlinear_arith)
        requires
            e3s.0 == ((x * x) * x) * 1,
            e3s.1 == ((y * y) * y) * 6,
            x2 == x * x,
            x3 == x2 * x,
            y2 == y * y,
            y3 == y2 * y,
    {}
    assert(e4t.0 == x4 && e4t.1 == 24 * y4) by (nonlinear_arith)
        requires
            e4t.0 == (((x * x) * x) * x) * 1,
            e4t.1 == (((y * y) * y) * y) * 24,
            x2 == x * x,
            x3 == x2 * x,
            x4 == x3 * x,
            y2 == y * y,
            y3 == y2 * y,
            y4 == y3 * y,
    {}
    assert(tb.0 == 2 * y3 - 2 * x * y2 + x2 * y && tb.1 == 2 * y3) by (nonlinear_arith)
        requires
            tb.0 == ta.0 * e2h.1 + e2h.0 * ta.1,
            tb.1 == ta.1 * e2h.1,
            ta.0 == 1 * y + (-x) * 1,
            ta.1 == 1 * y,
            e2h.0 == (x * x) * 1,
            e2h.1 == (y * y) * 2,
            x2 == x * x,
            y2 == y * y,
            y3 == y2 * y,
    {}
    vstd::arithmetic::mul::lemma_mul_is_distributive_add_other_way(
        e3s.1,
        2 * y3 - 2 * x * y2,
        x2 * y,
    );
    vstd::arithmetic::mul::lemma_mul_is_distributive_sub_other_way(e3s.1, 2 * y3, 2 * x * y2);
    assert((2 * y3) * e3s.1 == 12 * y6) by (nonlinear_arith)
        requires
            e3s.1 == 6 * y3,
            y3 * y3 == y6,
    {}
    assert((2 * x * y2) * e3s.1 == 12 * x * y5) by (nonlinear_arith)
        requires
            e3s.1 == 6 * y3,
            y2 * y3 == y5,
    {}
    assert((x2 * y) * e3s.1 == 6 * x2 * y4) by (nonlinear_arith)
        requires
            e3s.1 == 6 * y3,
            y * y3 == y4,
    {}
    assert(tb.0 * e3s.1 == 12 * y6 - 12 * x * y5 + 6 * x2 * y4);
    assert((-e3s.0) * tb.1 == -2 * x3 * y3) by (nonlinear_arith)
        requires
            e3s.0 == x3,
            tb.1 == 2 * y3,
    {}
    assert(tcp.0 == 12 * y6 - 12 * x * y5 + 6 * x2 * y4 - 2 * x3 * y3) by (nonlinear_arith)
        requires
            tcp.0 == tb.0 * e3s.1 + (-e3s.0) * tb.1,
            tb.0 * e3s.1 == 12 * y6 - 12 * x * y5 + 6 * x2 * y4,
            (-e3s.0) * tb.1 == -2 * x3 * y3,
    {}
    assert(tcp.1 == 12 * y6) by (nonlinear_arith)
        requires
            tcp.1 == tb.1 * e3s.1,
            tb.1 == 2 * y3,
            e3s.1 == 6 * y3,
            y3 * y3 == y6,
    {}
    vstd::arithmetic::mul::lemma_mul_is_distributive_sub_other_way(
        e4t.1,
        12 * y6 - 12 * x * y5 + 6 * x2 * y4,
        2 * x3 * y3,
    );
    vstd::arithmetic::mul::lemma_mul_is_distributive_add_other_way(
        e4t.1,
        12 * y6 - 12 * x * y5,
        6 * x2 * y4,
    );
    vstd::arithmetic::mul::lemma_mul_is_distributive_sub_other_way(e4t.1, 12 * y6, 12 * x * y5);
    assert((12 * y6) * e4t.1 == 288 * y10) by (nonlinear_arith)
        requires
            e4t.1 == 24 * y4,
            y6 * y4 == y10,
    {}
    assert((12 * x * y5) * e4t.1 == 288 * x * y9) by (nonlinear_arith)
        requires
            e4t.1 == 24 * y4,
            y5 * y4 == y9,
    {}
    assert((6 * x2 * y4) * e4t.1 == 144 * x2 * y8) by (nonlinear_arith)
        requires
            e4t.1 == 24 * y4,
            y4 * y4 == y8,
    {}
    assert((2 * x3 * y3) * e4t.1 == 48 * x3 * y7) by (nonlinear_arith)
        requires
            e4t.1 == 24 * y4,
            y3 * y4 == y7,
    {}
    assert(tcp.0 * e4t.1 == 288 * y10 - 288 * x * y9 + 144 * x2 * y8 - 48 * x3 * y7);
    assert(e4t.0 * tcp.1 == 12 * x4 * y6) by (nonlinear_arith)
        requires
            e4t.0 == x4,
            tcp.1 == 12 * y6,
    {}
    assert(tt.0 == 288 * y10 - 288 * x * y9 + 144 * x2 * y8 - 48 * x3 * y7 + 12 * x4 * y6);
    assert(tt.1 == 288 * y10) by (nonlinear_arith)
        requires
            tt.1 == tcp.1 * e4t.1,
            tcp.1 == 12 * y6,
            e4t.1 == 24 * y4,
            y6 * y4 == y10,
    {}
    // The factored step coefficient and the Taylor polynomial are the
    // same fraction.
    vstd::arithmetic::mul::lemma_mul_is_distributive_add_other_way(
        tt.1,
        192 * y7 - 192 * x * y6 + 96 * x2 * y5 - 32 * x3 * y4,
        8 * x4 * y3,
    );
    vstd::arithmetic::mul::lemma_mul_is_distributive_sub_other_way(
        tt.1,
        192 * y7 - 192 * x * y6 + 96 * x2 * y5,
        32 * x3 * y4,
    );
    vstd::arithmetic::mul::lemma_mul_is_distributive_add_other_way(
        tt.1,
        192 * y7 - 192 * x * y6,
        96 * x2 * y5,
    );
    vstd::arithmetic::mul::lemma_mul_is_distributive_sub_other_way(tt.1, 192 * y7, 192 * x * y6);
    assert((192 * y7) * tt.1 == 55296 * (y7 * y10)) by (nonlinear_arith)
        requires
            tt.1 == 288 * y10,
    {}
    assert((192 * x * y6) * tt.1 == 55296 * x * (y6 * y10)) by (nonlinear_arith)
        requires
            tt.1 == 288 * y10,
    {}
    assert((96 * x2 * y5) * tt.1 == 27648 * x2 * (y5 * y10)) by (nonlinear_arith)
        requires
            tt.1 == 288 * y10,
    {}
    assert((32 * x3 * y4) * tt.1 == 9216 * x3 * (y4 * y10)) by (nonlinear_arith)
        requires
            tt.1 == 288 * y10,
    {}
    assert((8 * x4 * y3) * tt.1 == 2304 * x4 * (y3 * y10)) by (nonlinear_arith)
        requires
            tt.1 == 288 * y10,
    {}
    assert(gg.0 * tt.1 == 55296 * (y7 * y10) - 55296 * x * (y6 * y10) + 27648 * x2 * (y5 * y10)
        - 9216 * x3 * (y4 * y10) + 2304 * x4 * (y3 * y10));
    vstd::arithmetic::mul::lemma_mul_is_distributive_add_other_way(
        gg.1,
        288 * y10 - 288 * x * y9 + 144 * x2 * y8 - 48 * x3 * y7,
        12 * x4 * y6,
    );
    vstd::arithmetic::mul::lemma_mul_is_distributive_sub_other_way(
        gg.1,
        288 * y10 - 288 * x * y9 + 144 * x2 * y8,
        48 * x3 * y7,
    );
    vstd::arithmetic::mul::lemma_mul_is_distributive_add_other_way(
        gg.1,
        288 * y10 - 288 * x * y9,
        144 * x2 * y8,
    );
    vstd::arithmetic::mul::lemma_mul_is_distributive_sub_other_way(gg.1, 288 * y10, 288 * x * y9);
    assert((288 * y10) * gg.1 == 55296 * (y7 * y10)) by (nonlinear_arith)
        requires
            gg.1 == 192 * y7,
    {}
    assert((288 * x * y9) * gg.1 == 55296 * x * (y9 * y7)) by (nonlinear_arith)
        requires
            gg.1 == 192 * y7,
    {}
    assert((144 * x2 * y8) * gg.1 == 27648 * x2 * (y8 * y7)) by (nonlinear_arith)
        requires
            gg.1 == 192 * y7,
    {}
    assert((48 * x3 * y7) * gg.1 == 9216 * x3 * (y7 * y7)) by (nonlinear_arith)
        requires
            gg.1 == 192 * y7,
    {}
    assert((12 * x4 * y6) * gg.1 == 2304 * x4 * (y6 * y7)) by (nonlinear_arith)
        requires
            gg.1 == 192 * y7,
    {}
    assert(tt.0 * gg.1 == 55296 * (y7 * y10) - 55296 * x * (y9 * y7) + 27648 * x2 * (y8 * y7)
        - 9216 * x3 * (y7 * y7) + 2304 * x4 * (y6 * y7));
    assert(gg.0 * tt.1 == tt.0 * gg.1);
    assert(rat_eq(gg, tt));
    // Carry the equality through the factored form of the step.
    lemma_pwf_ops(one, pneg(ps));
    lemma_rat_eq_trans(ff, gg, tt);
    lemma_pwf_ops(v0, ff);
    lemma_pmul_cong(v0, v0, ff, tt);
    lemma_rat_eq_trans(res, pmul(v0, ff), pmul(v0, tt));
}

/// A dynamical element with pure exponential damping, `dv/dt = -k * v`,
/// ignoring the control input.
#[derive(Clone, Copy, Debug)]
pub struct LinearDamping {
    /// The damping coefficient, strictly positive.
    pub k: Rat,
}

impl DynamicsModel for LinearDamping {
    open spec fn dyn_wf(&self) -> bool {
        self.k.wf() && is_pos(self.k@)
    }

    open spec fn deriv_spec(&self, v: (int, int), u: (int, int)) -> (int, int) {
        pneg(pmul(self.k@, v))
    }

    open spec fn deriv_opt(&self, v: (int, int), u: (int, int)) -> Option<(int, int)> {
        match mmul(self.k@, v) {
            Option::None => None,
            Option::Some(x) => Some(pneg(x)),
        }
    }

    proof fn lemma_deriv_spec_wf(&self, v: (int, int), u: (int, int)) {
        lemma_pwf_ops(self.k@, v);
        lemma_pwf_ops(pmul(self.k@, v), pmul(self.k@, v));
    }

    proof fn lemma_deriv_spec_cong(
        &self,
        v: (int, int),
        v2: (int, int),
        u: (int, int),
        u2: (int, int),
    ) {
        lemma_pwf_ops(self.k@, v);
        lemma_pwf_ops(self.k@, v2);
        lemma_pmul_cong(self.k@, self.k@, v, v2);
        lemma_pneg_cong(pmul(self.k@, v), pmul(self.k@, v2));
    }

    proof fn lemma_deriv_sound(&self, v: (int, int), u: (int, int)) {
        lemma_pwf_ops(self.k@, v);
        lemma_pwf_ops(pmul(self.k@, v), pmul(self.k@, v));
        lemma_norm_opt(pmul(self.k@, v));
        if mmul(self.k@, v) is Some {
            let x = mmul(self.k@, v).unwrap();
            lemma_pneg_cong(x, pmul(self.k@, v));
        }
    }

    proof fn lemma_deriv_zero(&self, v: (int, int), u: (int, int)) {
        lemma_pwf_ops(self.k@, v);
        assert(pmul(self.k@, v).0 == 0);
        lemma_norm_opt(pmul(self.k@, v));
    }

    fn deriv(&self, v: &Rat, u: &Rat) -> (r: Option<Rat>) {
        proof {
            lemma_pwf_ops(self.k@, v@);
            lemma_norm_opt(pmul(self.k@, v@));
        }
        match self.k.try_mul(v) {
            None => None,
            Some(x) => Some(x.neg()),
        }
    }
}

} // verus!

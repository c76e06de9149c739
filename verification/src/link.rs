//! A rigid link of the chain: a rod of mass `m` and length `l` pivoting
//! about one end, whose moment of inertia is `(1/3) * m * l^2`.

use crate::errors::DomainError;
use crate::rat::{
    in_range, is_pos, lemma_norm_opt, lemma_pmul_cong, lemma_pmul_pos, lemma_pwf_ops,
    lemma_rat_eq_pos, lemma_rat_eq_trans, mmul, omatch, pmul, pwf, rat_eq, Rat,
};
use vstd::prelude::*;

verus! {

/// Exact moment of inertia of the rod: `(1/3) * m * l^2`.
pub open spec fn moment_spec(m: (int, int), l: (int, int)) -> (int, int) {
    pmul(pmul((1int, 3int), m), pmul(l, l))
}

/// The stored moment of inertia: each product reduced, `None` when one
/// leaves the stored range.
pub open spec fn moment_opt(m: (int, int), l: (int, int)) -> Option<(int, int)> {
    match mmul((1int, 3int), m) {
        Option::None => None,
        Option::Some(t) => match mmul(l, l) {
            Option::None => None,
            Option::Some(ll) => mmul(t, ll),
        },
    }
}

/// When the stored moment exists it is within range, positive for
/// positive mass and length, and equal as a fraction to `moment_spec`.
pub proof fn lemma_moment_sound(m: (int, int), l: (int, int))
    requires
        in_range(m),
        in_range(l),
        is_pos(m),
        is_pos(l),
    ensures
        moment_opt(m, l) matches Some(q) ==> in_range(q) && is_pos(q) && rat_eq(
            q,
            moment_spec(m, l),
        ),
        pwf(moment_spec(m, l)),
        is_pos(moment_spec(m, l)),
{
    lemma_pwf_ops((1int, 3int), m);
    lemma_pwf_ops(l, l);
    lemma_pwf_ops(pmul((1int, 3int), m), pmul(l, l));
    lemma_pmul_pos((1int, 3int), m);
    lemma_pmul_pos(l, l);
    lemma_pmul_pos(pmul((1int, 3int), m), pmul(l, l));
    lemma_norm_opt(pmul((1int, 3int), m));
    lemma_norm_opt(pmul(l, l));
    if mmul((1int, 3int), m) is Some && mmul(l, l) is Some {
        let t = mmul((1int, 3int), m).unwrap();
        let ll = mmul(l, l).unwrap();
        lemma_pwf_ops(t, ll);
        lemma_norm_opt(pmul(t, ll));
        if mmul(t, ll) is Some {
            let q = mmul(t, ll).unwrap();
            lemma_pmul_cong(t, pmul((1int, 3int), m), ll, pmul(l, l));
            lemma_rat_eq_trans(q, pmul(t, ll), moment_spec(m, l));
            lemma_rat_eq_pos(q, moment_spec(m, l));
        }
    }
}

/// A rigid link: mass in kilograms and length in metres, both strictly
/// positive.
#[derive(Clone, Copy, Debug)]
pub struct Link {
    /// Mass of the rod, in kilograms.
    pub m: Rat,
    /// Length of the rod, in metres.
    pub l: Rat,
}

impl Link {
    /// Mass and length are within range and strictly positive.
    pub open spec fn wf(self) -> bool {
        &&& self.m.wf()
        &&& self.l.wf()
        &&& is_pos(self.m@)
        &&& is_pos(self.l@)
    }

    /// A link of the given mass and length; rejects a non-positive mass
    /// or length.
    pub fn new(m: Rat, l: Rat) -> (r: Result<Link, DomainError>)
        requires
            m.wf(),
            l.wf(),
        ensures
            r is Ok <==> is_pos(m@) && is_pos(l@),
            r matches Ok(k) ==> k == (Link { m, l }) && k.wf(),
            !is_pos(m@) ==> r == Result::<Link, DomainError>::Err(DomainError::NonPositiveMass),
            is_pos(m@) && !is_pos(l@) ==> r == Result::<Link, DomainError>::Err(
                DomainError::NonPositiveLength,
            ),
    {
        if m.numerator() < 1 {
            Err(DomainError::NonPositiveMass)
        } else if l.numerator() < 1 {
            Err(DomainError::NonPositiveLength)
        } else {
            Ok(Link { m, l })
        }
    }

    /// The moment of inertia of the rod about its end, `(1/3) * m * l^2`,
    /// recomputed from the current mass and length; `None` when the exact
    /// value leaves the stored range.
    pub fn moment(&self) -> (r: Option<Rat>)
        requires
            self.wf(),
        ensures
            omatch(r, moment_opt(self.m@, self.l@)),
    {
        let third = Rat::make(1, 3);
        let t = match third.try_mul(&self.m) {
            None => {
                return None;
            },
            Some(x) => x,
        };
        let ll = match self.l.try_mul(&self.l) {
            None => {
                return None;
            },
            Some(x) => x,
        };
        t.try_mul(&ll)
    }
}

} // verus!

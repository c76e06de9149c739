//! Exact rational arithmetic.
//!
//! Every physical quantity in the library (mass, length, angular velocity,
//! angle, current, time) is a rational number `num / den` held in an
//! [`Rat`].  The arithmetic is exact: each operation forms the textbook
//! numerator and denominator, removes the greatest common divisor, and
//! reports `None` when even the reduced result falls outside the stored
//! range.  Specifications are written over mathematical pairs `(int, int)`
//! with a positive second component; `rat_eq` is equality of the fractions
//! the pairs denote.

use vstd::arithmetic::div_mod::{
    lemma_fundamental_div_mod, lemma_mod_multiples_basic, lemma_mod_self_0, lemma_small_mod,
};
use vstd::prelude::*;

verus! {

/// Largest magnitude a stored numerator may take, and largest value a
/// stored denominator may take (`2^62`), so that any product of two stored
/// components, and any sum of two such products, fits in an `i128`.
pub const MAX_MAG: i128 = 4611686018427387904;

/// Largest raw component magnitude [`norm`] accepts: enough for the sum of
/// two products of stored components.
pub const RAW_MAX: i128 = MAX_MAG * MAX_MAG * 2;

// ------------------------------------------------------------------
// Pure fraction arithmetic on pairs of unbounded integers.
// ------------------------------------------------------------------

/// A pair denotes a fraction only when its denominator is positive.
pub open spec fn pwf(p: (int, int)) -> bool {
    p.1 >= 1
}

/// Both components of the pair fit the stored range.
pub open spec fn in_range(p: (int, int)) -> bool {
    &&& -(MAX_MAG as int) <= p.0 <= MAX_MAG as int
    &&& 1 <= p.1 <= MAX_MAG as int
}

/// The two pairs denote the same fraction (cross multiplication).
pub open spec fn rat_eq(p: (int, int), q: (int, int)) -> bool {
    p.0 * q.1 == q.0 * p.1
}

/// The fraction zero.
pub open spec fn pzero() -> (int, int) {
    (0int, 1int)
}

/// The pair denotes a strictly positive fraction.
pub open spec fn is_pos(p: (int, int)) -> bool {
    p.0 >= 1
}

/// Exact sum of two fractions.
pub open spec fn padd(p: (int, int), q: (int, int)) -> (int, int) {
    (p.0 * q.1 + q.0 * p.1, p.1 * q.1)
}

/// Exact difference of two fractions.
pub open spec fn psub(p: (int, int), q: (int, int)) -> (int, int) {
    (p.0 * q.1 - q.0 * p.1, p.1 * q.1)
}

/// Exact product of two fractions.
pub open spec fn pmul(p: (int, int), q: (int, int)) -> (int, int) {
    (p.0 * q.0, p.1 * q.1)
}

/// Exact negation of a fraction.
pub open spec fn pneg(p: (int, int)) -> (int, int) {
    (-p.0, p.1)
}

/// Exact quotient of two fractions, keeping the denominator positive.
pub open spec fn pdiv(p: (int, int), q: (int, int)) -> (int, int)
    recommends
        q.0 != 0,
{
    if q.0 >= 0 {
        (p.0 * q.1, p.1 * q.0)
    } else {
        (-(p.0 * q.1), p.1 * (-q.0))
    }
}

/// Greatest common divisor by Euclid's recursion.
pub open spec fn gcd_spec(a: int, b: int) -> int
    recommends
        a >= 0,
        b >= 0,
    decreases b,
    when b >= 0
{
    if b == 0 {
        a
    } else {
        gcd_spec(b, a % b)
    }
}

/// The reduced form of a pair: both components divided by their greatest
/// common divisor.
pub open spec fn norm_spec(p: (int, int)) -> (int, int)
    recommends
        pwf(p),
{
    let m = if p.0 >= 0 { p.0 } else { -p.0 };
    let g = gcd_spec(m, p.1);
    if p.0 >= 0 {
        (m / g, p.1 / g)
    } else {
        (-(m / g), p.1 / g)
    }
}

/// The reduced form when it fits the stored range, and `None` otherwise.
pub open spec fn norm_opt(p: (int, int)) -> Option<(int, int)> {
    let q = norm_spec(p);
    if in_range(q) {
        Some(q)
    } else {
        None
    }
}

/// What [`Rat::try_add`] returns, at the level of pairs.
pub open spec fn madd(p: (int, int), q: (int, int)) -> Option<(int, int)> {
    norm_opt(padd(p, q))
}

/// What [`Rat::try_sub`] returns, at the level of pairs.
pub open spec fn msub(p: (int, int), q: (int, int)) -> Option<(int, int)> {
    norm_opt(psub(p, q))
}

/// What [`Rat::try_mul`] returns, at the level of pairs.
pub open spec fn mmul(p: (int, int), q: (int, int)) -> Option<(int, int)> {
    norm_opt(pmul(p, q))
}

/// What [`Rat::try_div`] returns, at the level of pairs.
pub open spec fn mdiv(p: (int, int), q: (int, int)) -> Option<(int, int)> {
    norm_opt(pdiv(p, q))
}

/// The stored result agrees with the pair-level result.
pub open spec fn omatch(r: Option<Rat>, s: Option<(int, int)>) -> bool {
    match (r, s) {
        (Option::None, Option::None) => true,
        (Option::Some(x), Option::Some(y)) => x@ == y,
        _ => false,
    }
}

// ------------------------------------------------------------------
// Lemmas about the greatest common divisor and reduction.
// ------------------------------------------------------------------

proof fn lemma_gcd_divides(a: int, b: int)
    requires
        a >= 0,
        b >= 0,
        a >= 1 || b >= 1,
    ensures
        gcd_spec(a, b) >= 1,
        a % gcd_spec(a, b) == 0,
        b % gcd_spec(a, b) == 0,
    decreases b,
{
    let g = gcd_spec(a, b);
    if b == 0 {
        assert(g == a);
        lemma_mod_self_0(a);
        lemma_small_mod(0nat, a as nat);
    } else {
        let r = a % b;
        assert(0 <= r < b);
        lemma_gcd_divides(b, r);
        assert(g == gcd_spec(b, r));
        assert(b % g == 0);
        assert(r % g == 0);
        lemma_fundamental_div_mod(a, b);
        lemma_fundamental_div_mod(b, g);
        lemma_fundamental_div_mod(r, g);
        let k = (b / g) * (a / b) + r / g;
        assert(a == g * k) by (nonlinear_arith)
            requires
                a == b * (a / b) + r,
                b == g * (b / g),
                r == g * (r / g),
                k == (b / g) * (a / b) + r / g,
        {}
        lemma_mod_multiples_basic(k, g);
    }
}

proof fn lemma_norm_spec(p: (int, int))
    requires
        pwf(p),
    ensures
        pwf(norm_spec(p)),
        rat_eq(norm_spec(p), p),
        norm_spec(p).1 <= p.1,
        p.0 >= 1 ==> 1 <= norm_spec(p).0 <= p.0,
        p.0 == 0 ==> norm_spec(p) == (0int, 1int),
        p.0 <= -1 ==> p.0 <= norm_spec(p).0 <= -1,
{
    let m = if p.0 >= 0 { p.0 } else { -p.0 };
    let g = gcd_spec(m, p.1);
    lemma_gcd_divides(m, p.1);
    lemma_fundamental_div_mod(m, g);
    lemma_fundamental_div_mod(p.1, g);
    let mq = m / g;
    let dq = p.1 / g;
    assert(m == g * mq);
    assert(p.1 == g * dq);
    assert(dq >= 1) by (nonlinear_arith)
        requires
            p.1 == g * dq,
            p.1 >= 1,
            g >= 1,
    {}
    assert(dq <= p.1) by (nonlinear_arith)
        requires
            p.1 == g * dq,
            g >= 1,
            dq >= 1,
    {}
    assert(mq >= 0 && (m >= 1 ==> 1 <= mq <= m)) by (nonlinear_arith)
        requires
            m == g * mq,
            m >= 0,
            g >= 1,
    {}
    assert(mq * p.1 == m * dq) by (nonlinear_arith)
        requires
            m == g * mq,
            p.1 == g * dq,
    {}
    if p.0 >= 0 {
        assert(norm_spec(p) == (mq, dq));
        assert(mq * p.1 == p.0 * dq);
    } else {
        assert(norm_spec(p) == (-mq, dq));
        assert((-mq) * p.1 == p.0 * dq) by (nonlinear_arith)
            requires
                mq * p.1 == m * dq,
                m == -p.0,
        {}
        assert(1 <= mq <= m);
    }
    if p.0 == 0 {
        assert(gcd_spec(0, p.1) == gcd_spec(p.1, 0)) by {
            lemma_small_mod(0nat, p.1 as nat);
        }
        assert(g == p.1);
        assert(mq == 0) by (nonlinear_arith)
            requires
                0 == g * mq,
                g >= 1,
                mq >= 0,
        {}
        assert(dq == 1) by (nonlinear_arith)
            requires
                p.1 == g * dq,
                g == p.1,
                p.1 >= 1,
                dq >= 1,
        {}
    }
}

/// `norm_opt` keeps the fraction: when it yields a pair, that pair is
/// within range and equal as a fraction to its input; it keeps the sign
/// of the numerator; it always yields a pair for a zero numerator or an
/// input already within range.
pub proof fn lemma_norm_opt(p: (int, int))
    requires
        pwf(p),
    ensures
        norm_opt(p) matches Some(q) ==> in_range(q) && rat_eq(q, p),
        norm_opt(p) matches Some(q) ==> (p.0 >= 1 ==> q.0 >= 1) && (p.0 <= -1 ==> q.0 <= -1),
        p.0 == 0 ==> norm_opt(p) == Some((0int, 1int)),
        in_range(p) ==> norm_opt(p) is Some,
{
    lemma_norm_spec(p);
    if p.0 == 0 {
        assert(norm_spec(p) == (0int, 1int));
    }
}

/// Multiplication of pairs is associative, exactly.
pub proof fn lemma_pmul_assoc(a: (int, int), b: (int, int), c: (int, int))
    ensures
        pmul(pmul(a, b), c) == pmul(a, pmul(b, c)),
{
    assert((a.0 * b.0) * c.0 == a.0 * (b.0 * c.0) && (a.1 * b.1) * c.1 == a.1 * (b.1 * c.1))
        by (nonlinear_arith)
    {}
}

/// Multiplication of pairs is commutative, exactly.
pub proof fn lemma_pmul_comm(a: (int, int), b: (int, int))
    ensures
        pmul(a, b) == pmul(b, a),
{
    assert(a.0 * b.0 == b.0 * a.0 && a.1 * b.1 == b.1 * a.1) by (nonlinear_arith) {}
}

/// The unit fraction is a multiplicative unit, exactly.
pub proof fn lemma_pmul_one(a: (int, int))
    ensures
        pmul(a, (1int, 1int)) == a,
        pmul((1int, 1int), a) == a,
{
    assert(a.0 * 1 == a.0 && a.1 * 1 == a.1 && 1 * a.0 == a.0 && 1 * a.1 == a.1)
        by (nonlinear_arith)
    {}
}

/// Negation moves through multiplication, exactly.
pub proof fn lemma_pmul_pneg(a: (int, int), b: (int, int))
    ensures
        pmul(pneg(a), b) == pneg(pmul(a, b)),
        pmul(a, pneg(b)) == pneg(pmul(a, b)),
{
    assert((-a.0) * b.0 == -(a.0 * b.0) && a.0 * (-b.0) == -(a.0 * b.0)) by (nonlinear_arith) {}
}

/// Negation moves through addition, exactly.
pub proof fn lemma_pneg_padd(a: (int, int), b: (int, int))
    ensures
        pneg(padd(a, b)) == padd(pneg(a), pneg(b)),
{
    assert(-(a.0 * b.1 + b.0 * a.1) == (-a.0) * b.1 + (-b.0) * a.1) by (nonlinear_arith) {}
}

/// Multiplication distributes over addition, as fractions.
pub proof fn lemma_pdist(a: (int, int), b: (int, int), c: (int, int))
    requires
        pwf(a),
        pwf(b),
        pwf(c),
    ensures
        rat_eq(pmul(a, padd(b, c)), padd(pmul(a, b), pmul(a, c))),
{
    let x = a.0 * (b.0 * c.1);
    let y = a.0 * (c.0 * b.1);
    let d2 = a.1 * (b.1 * c.1);
    vstd::arithmetic::mul::lemma_mul_is_distributive_add(a.0, b.0 * c.1, c.0 * b.1);
    assert((a.1 * b.1) * (a.1 * c.1) == d2 * a.1) by (nonlinear_arith)
        requires
            d2 == a.1 * (b.1 * c.1),
    {}
    vstd::arithmetic::mul::lemma_mul_is_distributive_add_other_way(d2 * a.1, x, y);
    assert(x * (d2 * a.1) == ((a.0 * b.0) * (a.1 * c.1)) * d2) by (nonlinear_arith)
        requires
            x == a.0 * (b.0 * c.1),
            d2 == a.1 * (b.1 * c.1),
    {}
    assert(y * (d2 * a.1) == ((a.0 * c.0) * (a.1 * b.1)) * d2) by (nonlinear_arith)
        requires
            y == a.0 * (c.0 * b.1),
            d2 == a.1 * (b.1 * c.1),
    {}
    vstd::arithmetic::mul::lemma_mul_is_distributive_add_other_way(
        d2,
        (a.0 * b.0) * (a.1 * c.1),
        (a.0 * c.0) * (a.1 * b.1),
    );
}

/// A product with a zero fraction has a zero numerator.
pub proof fn lemma_pmul_num_zero(p: (int, int), q: (int, int))
    requires
        p.0 == 0 || q.0 == 0,
    ensures
        pmul(p, q).0 == 0,
{
    assert(p.0 * q.0 == 0) by (nonlinear_arith)
        requires
            p.0 == 0 || q.0 == 0,
    {}
}

/// A quotient of a zero fraction has a zero numerator.
pub proof fn lemma_pdiv_num_zero(p: (int, int), q: (int, int))
    requires
        p.0 == 0,
    ensures
        pdiv(p, q).0 == 0,
{
    assert(p.0 * q.1 == 0 && -(p.0 * q.1) == 0) by (nonlinear_arith)
        requires
            p.0 == 0,
    {}
}

/// Adding the unit zero fraction gives the pair back unchanged.
pub proof fn lemma_padd_zero_unit(p: (int, int))
    ensures
        padd(p, (0int, 1int)) == p,
        padd((0int, 1int), p) == p,
{
    assert(p.0 * 1 + 0 * p.1 == p.0 && p.1 * 1 == p.1 && 0 * p.1 + p.0 * 1 == p.0 && 1 * p.1
        == p.1) by (nonlinear_arith)
    {}
}

/// Denominators of the exact operations stay positive.
pub proof fn lemma_pwf_ops(p: (int, int), q: (int, int))
    requires
        pwf(p),
        pwf(q),
    ensures
        pwf(padd(p, q)),
        pwf(psub(p, q)),
        pwf(pmul(p, q)),
        pwf(pneg(p)),
        q.0 != 0 ==> pwf(pdiv(p, q)),
{
    assert(p.1 * q.1 >= 1) by (nonlinear_arith)
        requires
            p.1 >= 1,
            q.1 >= 1,
    {}
    if q.0 >= 1 {
        assert(p.1 * q.0 >= 1) by (nonlinear_arith)
            requires
                p.1 >= 1,
                q.0 >= 1,
        {}
    }
    if q.0 <= -1 {
        assert(p.1 * (-q.0) >= 1) by (nonlinear_arith)
            requires
                p.1 >= 1,
                q.0 <= -1,
        {}
    }
}

/// A product of positive fractions is positive.
pub proof fn lemma_pmul_pos(p: (int, int), q: (int, int))
    requires
        is_pos(p),
        is_pos(q),
    ensures
        is_pos(pmul(p, q)),
{
    assert(p.0 * q.0 >= 1) by (nonlinear_arith)
        requires
            p.0 >= 1,
            q.0 >= 1,
    {}
}

/// Positivity carries across fraction equality.
pub proof fn lemma_rat_eq_pos(p: (int, int), q: (int, int))
    requires
        pwf(p),
        pwf(q),
        rat_eq(p, q),
        is_pos(q),
    ensures
        is_pos(p),
{
    assert(p.0 >= 1) by (nonlinear_arith)
        requires
            p.0 * q.1 == q.0 * p.1,
            p.1 >= 1,
            q.1 >= 1,
            q.0 >= 1,
    {}
}

// ------------------------------------------------------------------
// Lemmas of the fraction algebra used throughout the library.
// ------------------------------------------------------------------

/// Fraction equality is transitive (through a well-formed middle pair).
pub proof fn lemma_rat_eq_trans(p: (int, int), q: (int, int), r: (int, int))
    requires
        pwf(q),
        rat_eq(p, q),
        rat_eq(q, r),
    ensures
        rat_eq(p, r),
{
    assert(p.0 * r.1 == r.0 * p.1) by (nonlinear_arith)
        requires
            p.0 * q.1 == q.0 * p.1,
            q.0 * r.1 == r.0 * q.1,
            q.1 >= 1,
    {}
}

/// Sums of equal fractions are equal.
pub proof fn lemma_padd_cong(a: (int, int), a2: (int, int), b: (int, int), b2: (int, int))
    requires
        pwf(a),
        pwf(a2),
        pwf(b),
        pwf(b2),
        rat_eq(a, a2),
        rat_eq(b, b2),
    ensures
        rat_eq(padd(a, b), padd(a2, b2)),
{
    assert((a.0 * b.1) * (a2.1 * b2.1) == (a2.0 * b2.1) * (a.1 * b.1)) by (nonlinear_arith)
        requires
            a.0 * a2.1 == a2.0 * a.1,
    {}
    assert((b.0 * a.1) * (a2.1 * b2.1) == (b2.0 * a2.1) * (a.1 * b.1)) by (nonlinear_arith)
        requires
            b.0 * b2.1 == b2.0 * b.1,
    {}
    assert((a.0 * b.1 + b.0 * a.1) * (a2.1 * b2.1) == (a2.0 * b2.1 + b2.0 * a2.1) * (a.1 * b.1))
        by (nonlinear_arith)
        requires
            (a.0 * b.1) * (a2.1 * b2.1) == (a2.0 * b2.1) * (a.1 * b.1),
            (b.0 * a.1) * (a2.1 * b2.1) == (b2.0 * a2.1) * (a.1 * b.1),
    {}
}

/// Negations of equal fractions are equal.
pub proof fn lemma_pneg_cong(a: (int, int), a2: (int, int))
    requires
        rat_eq(a, a2),
    ensures
        rat_eq(pneg(a), pneg(a2)),
{
    assert((-a.0) * a2.1 == (-a2.0) * a.1) by (nonlinear_arith)
        requires
            a.0 * a2.1 == a2.0 * a.1,
    {}
}

/// Quotients of equal fractions by equal positive fractions are equal.
pub proof fn lemma_pdiv_cong(a: (int, int), a2: (int, int), b: (int, int), b2: (int, int))
    requires
        pwf(a),
        pwf(a2),
        pwf(b),
        pwf(b2),
        rat_eq(a, a2),
        rat_eq(b, b2),
        is_pos(b),
        is_pos(b2),
    ensures
        rat_eq(pdiv(a, b), pdiv(a2, b2)),
{
    assert((a.0 * b.1) * (a2.1 * b2.0) == (a.0 * a2.1) * (b2.0 * b.1)) by (nonlinear_arith) {}
    assert((a.0 * a2.1) * (b2.0 * b.1) == (a2.0 * a.1) * (b2.0 * b.1)) by (nonlinear_arith)
        requires
            a.0 * a2.1 == a2.0 * a.1,
    {}
    assert((a2.0 * a.1) * (b2.0 * b.1) == (a2.0 * a.1) * (b.0 * b2.1)) by (nonlinear_arith)
        requires
            b.0 * b2.1 == b2.0 * b.1,
    {}
    assert((a2.0 * a.1) * (b.0 * b2.1) == (a2.0 * b2.1) * (a.1 * b.0)) by (nonlinear_arith) {}
}

/// Products of equal fractions are equal.
pub proof fn lemma_pmul_cong(a: (int, int), a2: (int, int), b: (int, int), b2: (int, int))
    requires
        pwf(a),
        pwf(a2),
        pwf(b),
        pwf(b2),
        rat_eq(a, a2),
        rat_eq(b, b2),
    ensures
        rat_eq(pmul(a, b), pmul(a2, b2)),
{
    assert((a.0 * b.0) * (a2.1 * b2.1) == (a2.0 * b2.0) * (a.1 * b.1)) by (nonlinear_arith)
        requires
            a.0 * a2.1 == a2.0 * a.1,
            b.0 * b2.1 == b2.0 * b.1,
    {}
}

// ------------------------------------------------------------------
// The stored rational number.
// ------------------------------------------------------------------

/// An exact rational number within the stored range.
#[derive(Clone, Copy, Debug)]
pub struct Rat {
    pub(crate) num: i128,
    pub(crate) den: i128,
}

impl View for Rat {
    type V = (int, int);

    closed spec fn view(&self) -> (int, int) {
        (self.num as int, self.den as int)
    }
}

impl Rat {
    /// The stored components are within range and the denominator is
    /// positive.
    pub open spec fn wf(self) -> bool {
        in_range(self@)
    }

    /// A rational from small integer parts, stored as given.
    pub fn make(n: i64, d: i64) -> (r: Rat)
        requires
            1 <= d,
            -(MAX_MAG as int) <= n as int <= MAX_MAG as int,
            d as int <= MAX_MAG as int,
        ensures
            r.wf(),
            r@ == (n as int, d as int),
    {
        Rat { num: n as i128, den: d as i128 }
    }

    /// A rational from any numerator and denominator, reduced; rejects a
    /// zero denominator and a reduced value out of the stored range.
    pub fn new(n: i64, d: i64) -> (r: Option<Rat>)
        ensures
            d == 0 ==> r is None,
            d > 0 ==> omatch(r, norm_opt((n as int, d as int))),
            d < 0 ==> omatch(r, norm_opt((-(n as int), -(d as int)))),
            r matches Some(x) ==> x.wf(),
    {
        let mut nn: i128 = n as i128;
        let mut dd: i128 = d as i128;
        if dd == 0 {
            return None;
        }
        if dd < 0 {
            nn = -nn;
            dd = -dd;
        }
        norm(nn, dd)
    }

    /// A rational from an integer.
    pub fn from_int(n: i64) -> (r: Rat)
        requires
            -(MAX_MAG as int) <= n as int <= MAX_MAG as int,
        ensures
            r.wf(),
            r@ == (n as int, 1int),
    {
        Rat { num: n as i128, den: 1 }
    }

    /// The stored numerator.
    pub fn numerator(&self) -> (n: i128)
        ensures
            n as int == self@.0,
    {
        self.num
    }

    /// The stored denominator.
    pub fn denominator(&self) -> (d: i128)
        ensures
            d as int == self@.1,
    {
        self.den
    }

    /// Exact sum; `None` when the reduced result leaves the stored range.
    pub fn try_add(&self, other: &Rat) -> (r: Option<Rat>)
        requires
            self.wf(),
            other.wf(),
        ensures
            omatch(r, madd(self@, other@)),
            r matches Some(x) ==> x.wf() && rat_eq(x@, padd(self@, other@)),
    {
        proof {
            lemma_component_products(self@, other@);
            lemma_norm_opt(padd(self@, other@));
        }
        let n = self.num * other.den + other.num * self.den;
        let d = self.den * other.den;
        norm(n, d)
    }

    /// Exact difference; `None` when the reduced result leaves the stored
    /// range.
    pub fn try_sub(&self, other: &Rat) -> (r: Option<Rat>)
        requires
            self.wf(),
            other.wf(),
        ensures
            omatch(r, msub(self@, other@)),
            r matches Some(x) ==> x.wf() && rat_eq(x@, psub(self@, other@)),
    {
        proof {
            lemma_component_products(self@, other@);
            lemma_norm_opt(psub(self@, other@));
        }
        let n = self.num * other.den - other.num * self.den;
        let d = self.den * other.den;
        norm(n, d)
    }

    /// Exact product; `None` when the reduced result leaves the stored
    /// range.
    pub fn try_mul(&self, other: &Rat) -> (r: Option<Rat>)
        requires
            self.wf(),
            other.wf(),
        ensures
            omatch(r, mmul(self@, other@)),
            r matches Some(x) ==> x.wf() && rat_eq(x@, pmul(self@, other@)),
    {
        proof {
            lemma_component_products(self@, other@);
            lemma_norm_opt(pmul(self@, other@));
        }
        let n = self.num * other.num;
        let d = self.den * other.den;
        norm(n, d)
    }

    /// Exact quotient by a nonzero rational; `None` when the reduced
    /// result leaves the stored range.
    pub fn try_div(&self, other: &Rat) -> (r: Option<Rat>)
        requires
            self.wf(),
            other.wf(),
            other@.0 != 0,
        ensures
            omatch(r, mdiv(self@, other@)),
            r matches Some(x) ==> x.wf() && rat_eq(x@, pdiv(self@, other@)),
    {
        proof {
            lemma_component_products(self@, other@);
            lemma_norm_opt(pdiv(self@, other@));
        }
        if other.num >= 0 {
            let n = self.num * other.den;
            let d = self.den * other.num;
            norm(n, d)
        } else {
            let n = -(self.num * other.den);
            let d = self.den * (-other.num);
            norm(n, d)
        }
    }

    /// Exact negation; always representable.
    pub fn neg(&self) -> (r: Rat)
        requires
            self.wf(),
        ensures
            r.wf(),
            r@ == pneg(self@),
    {
        Rat { num: -self.num, den: self.den }
    }
}

/// Products and product sums of in-range components stay far inside the
/// `i128` range.
proof fn lemma_component_products(p: (int, int), q: (int, int))
    requires
        in_range(p),
        in_range(q),
    ensures
        -(RAW_MAX as int) <= p.0 * q.1 <= RAW_MAX as int,
        -(RAW_MAX as int) <= q.0 * p.1 <= RAW_MAX as int,
        -(RAW_MAX as int) <= p.0 * q.0 <= RAW_MAX as int,
        1 <= p.1 * q.1 <= RAW_MAX as int,
        -(RAW_MAX as int) <= p.0 * q.1 + q.0 * p.1 <= RAW_MAX as int,
        -(RAW_MAX as int) <= p.0 * q.1 - q.0 * p.1 <= RAW_MAX as int,
        q.0 >= 1 ==> 1 <= p.1 * q.0 <= RAW_MAX as int,
        q.0 <= -1 ==> 1 <= p.1 * (-q.0) <= RAW_MAX as int,
{
    let b = MAX_MAG as int;
    assert(-(b * b) <= p.0 * q.1 <= b * b && -(b * b) <= q.0 * p.1 <= b * b && -(b * b) <= p.0
        * q.0 <= b * b && 1 <= p.1 * q.1 <= b * b && (q.0 >= 1 ==> 1 <= p.1 * q.0 <= b * b) && (q.0
        <= -1 ==> 1 <= p.1 * (-q.0) <= b * b)) by (nonlinear_arith)
        requires
            -b <= p.0 <= b,
            1 <= p.1 <= b,
            -b <= q.0 <= b,
            1 <= q.1 <= b,
    {}
}

/// Reduce a raw numerator and denominator and store the result when it
/// fits.  This is the one place the executable code divides by a greatest
/// common divisor.
fn norm(n: i128, d: i128) -> (r: Option<Rat>)
    requires
        1 <= d <= RAW_MAX as int,
        -(RAW_MAX as int) <= n as int <= RAW_MAX as int,
    ensures
        omatch(r, norm_opt((n as int, d as int))),
        r matches Some(x) ==> x.wf(),
{
    let m: i128 = if n >= 0 {
        n
    } else {
        -n
    };
    let g = gcd(m, d);
    proof {
        lemma_gcd_divides(m as int, d as int);
        lemma_norm_spec((n as int, d as int));
        lemma_fundamental_div_mod(m as int, g as int);
        lemma_fundamental_div_mod(d as int, g as int);
    }
    let mq = m / g;
    let dq = d / g;
    let num: i128 = if n >= 0 {
        mq
    } else {
        -mq
    };
    if -MAX_MAG <= num && num <= MAX_MAG && dq <= MAX_MAG {
        Some(Rat { num, den: dq })
    } else {
        None
    }
}

/// Euclid's algorithm on nonnegative inputs.
fn gcd(a0: i128, b0: i128) -> (g: i128)
    requires
        0 <= a0 <= RAW_MAX as int,
        1 <= b0 <= RAW_MAX as int,
    ensures
        g as int == gcd_spec(a0 as int, b0 as int),
        1 <= g,
{
    let mut a = a0;
    let mut b = b0;
    while b != 0
        invariant
            0 <= a <= RAW_MAX as int,
            0 <= b <= RAW_MAX as int,
            gcd_spec(a as int, b as int) == gcd_spec(a0 as int, b0 as int),
            b == 0 ==> a >= 1,
        decreases b,
    {
        let t = a % b;
        a = b;
        b = t;
    }
    proof {
        lemma_gcd_divides(a0 as int, b0 as int);
    }
    a
}

} // verus!

//! The arm: an ordered chain of couples.
//!
//! Index 0 is the base joint nearest the fixed frame; the chain is never
//! empty.  `advance` moves every couple forward by one step of the
//! integrator under one shared control input; `set_link_length` mutates a
//! link in place (a live edit from a control panel); the geometry query
//! hands a renderer, per couple, the anchor, length and angle from which
//! it draws the segment.
//!
//! The step keeps the convention of the reference behaviour: the value
//! the integrator returns is multiplied by the step size once more before
//! it becomes the new velocity, and the angle accumulates the new
//! velocity multiplied by the step size again.  Whether that double
//! application of the step is a scaling convention or a defect is left
//! open on purpose: the contract states it exactly rather than silently
//! changing the physics.
//!
//! Because the arithmetic is exact, sustained stepping compounds the
//! state's denominators: the motor constants enter every derivative
//! evaluation and rarely cancel, so under a nonzero current the stored
//! range is typically exhausted within a few steps, after which `advance`
//! reports the step unrepresentable and leaves the chain untouched.  A
//! long-running frame loop must expect that error and decide for itself
//! whether to stop, reset, or restart from rounded state values.

use crate::couple::{Couple, CoupleState};
use crate::errors::{ArmError, DomainError, MissingLinkError};
use crate::integrator::{lemma_rk4_sound, lemma_rk4_zero, rk4_opt, rk4_step};
use crate::joint::Joint;
use crate::link::{moment_opt, Link};
use crate::motor::MotorType;
use crate::point::Point;
use crate::rat::{
    in_range, is_pos, lemma_norm_opt, lemma_padd_zero_unit, lemma_pmul_num_zero, lemma_pwf_ops,
    madd, mmul, pzero, rat_eq, Rat,
};
use vstd::pervasive::VecAdditionalExecFns;
use vstd::prelude::*;

verus! {

/// What one step does to one couple: the new velocity is the integrator's
/// value multiplied by `dt`, and the angle accumulates that new velocity
/// multiplied by `dt`; `None` when an exact intermediate leaves the
/// stored range.
pub open spec fn step_opt(c: Couple, u: (int, int), dt: (int, int)) -> Option<
    ((int, int), (int, int)),
> {
    match rk4_opt(c, c.joint.v@, u, dt) {
        Option::None => None,
        Option::Some(r) => match mmul(r, dt) {
            Option::None => None,
            Option::Some(vn) => match mmul(vn, dt) {
                Option::None => None,
                Option::Some(dth) => match madd(c.joint.angle@, dth) {
                    Option::None => None,
                    Option::Some(an) => Some((vn, an)),
                },
            },
        },
    }
}

/// What one advance does to the whole chain: the new (velocity, angle)
/// pair of every couple, or `None` when any couple's step is
/// unrepresentable.
pub open spec fn advance_opt(cs: Seq<Couple>, u: (int, int), dt: (int, int)) -> Option<
    Seq<((int, int), (int, int))>,
> {
    if forall|i: int| 0 <= i < cs.len() ==> #[trigger] step_opt(cs[i], u, dt) is Some {
        Some(Seq::new(cs.len(), |i: int| step_opt(cs[i], u, dt).unwrap()))
    } else {
        None
    }
}

/// The stepped couple keeps its motor, anchor, ratio and link, and takes
/// the stepped velocity and angle.
pub open spec fn couple_stepped(c0: Couple, c1: Couple, va: ((int, int), (int, int))) -> bool {
    &&& c1.joint.motor_type == c0.joint.motor_type
    &&& c1.joint.s == c0.joint.s
    &&& c1.joint.ratio == c0.joint.ratio
    &&& c1.link == c0.link
    &&& c1.joint.v@ == va.0
    &&& c1.joint.angle@ == va.1
}

/// The per-couple geometry the renderer consumes: the segment from
/// `anchor` to `anchor + length * (cos angle, sin angle)` in world space.
#[derive(Clone, Copy, Debug)]
pub struct LinkFrame {
    /// World-space position of the pivot.
    pub anchor: Point,
    /// Length of the link.
    pub length: Rat,
    /// Angle of the link against the world frame.
    pub angle: Rat,
}

/// An ordered chain of couples, base first, never empty.
pub struct Arm {
    couples: Vec<Couple>,
    last_current: Option<Rat>,
}

impl View for Arm {
    type V = Seq<Couple>;

    closed spec fn view(&self) -> Seq<Couple> {
        self.couples@
    }
}

impl Arm {
    /// The commanded current the chain last received, in amperes;
    /// `None` before the first advance.
    pub closed spec fn commanded(self) -> Option<Rat> {
        self.last_current
    }

    /// The chain holds at least one couple, every couple is well formed,
    /// and the recorded commanded current, if any, is well formed.
    pub open spec fn wf(self) -> bool {
        &&& self@.len() >= 1
        &&& forall|i: int| 0 <= i < self@.len() ==> (#[trigger] self@[i]).wf()
        &&& (self.commanded() matches Some(c) ==> c.wf())
    }

    /// An arm of one base couple at the given anchor; rejects a
    /// non-positive gear ratio, mass or length, in that order.
    pub fn new(start: Point, motor_type: MotorType, ratio: Rat, m: Rat, l: Rat) -> (r: Result<
        Arm,
        DomainError,
    >)
        requires
            start.wf(),
            ratio.wf(),
            m.wf(),
            l.wf(),
        ensures
            r is Ok <==> is_pos(ratio@) && is_pos(m@) && is_pos(l@),
            !is_pos(ratio@) ==> r == Result::<Arm, DomainError>::Err(DomainError::NonPositiveRatio),
            is_pos(ratio@) && !is_pos(m@) ==> r == Result::<Arm, DomainError>::Err(
                DomainError::NonPositiveMass,
            ),
            is_pos(ratio@) && is_pos(m@) && !is_pos(l@) ==> r == Result::<Arm, DomainError>::Err(
                DomainError::NonPositiveLength,
            ),
            r matches Ok(a) ==> a.wf() && a@.len() == 1 && a@[0].joint.motor_type == motor_type
                && a@[0].joint.s == start && a@[0].joint.ratio == ratio && a@[0].joint.v@ == pzero()
                && a@[0].joint.angle@ == pzero() && a@[0].link == (Link { m, l }) && a.commanded()
                is None,
    {
        let joint = match Joint::new(start, motor_type, ratio) {
            Err(e) => {
                return Err(e);
            },
            Ok(j) => j,
        };
        let link = match Link::new(m, l) {
            Err(e) => {
                return Err(e);
            },
            Ok(k) => k,
        };
        let mut couples: Vec<Couple> = Vec::new();
        couples.push(Couple { joint, link });
        Ok(Arm { couples, last_current: None })
    }

    /// Append one couple whose anchor is inherited from the current last
    /// couple, at rest, driven by the default motor; rejects a
    /// non-positive mass, length or ratio, in that order.
    pub fn add_link(&mut self, m: Rat, l: Rat, ratio: Rat) -> (r: Result<(), DomainError>)
        requires
            old(self).wf(),
            m.wf(),
            l.wf(),
            ratio.wf(),
        ensures
            final(self).wf(),
            r is Ok <==> is_pos(m@) && is_pos(l@) && is_pos(ratio@),
            r is Err ==> final(self)@ == old(self)@,
            !is_pos(m@) ==> r == Result::<(), DomainError>::Err(DomainError::NonPositiveMass),
            is_pos(m@) && !is_pos(l@) ==> r == Result::<(), DomainError>::Err(
                DomainError::NonPositiveLength,
            ),
            is_pos(m@) && is_pos(l@) && !is_pos(ratio@) ==> r == Result::<(), DomainError>::Err(
                DomainError::NonPositiveRatio,
            ),
            r is Ok ==> final(self)@.len() == old(self)@.len() + 1,
            r is Ok ==> forall|i: int|
                0 <= i < old(self)@.len() ==> final(self)@[i] == old(self)@[i],
            r is Ok ==> final(self)@.last().joint.motor_type == MotorType::Neo550,
            r is Ok ==> final(self)@.last().joint.s == old(self)@.last().joint.s,
            r is Ok ==> final(self)@.last().joint.ratio == ratio,
            r is Ok ==> final(self)@.last().joint.v@ == pzero(),
            r is Ok ==> final(self)@.last().joint.angle@ == pzero(),
            r is Ok ==> final(self)@.last().link == (Link { m, l }),
            final(self).commanded() == old(self).commanded(),
    {
        let link = match Link::new(m, l) {
            Err(e) => {
                return Err(e);
            },
            Ok(k) => k,
        };
        if ratio.numerator() < 1 {
            return Err(DomainError::NonPositiveRatio);
        }
        let s = self.couples[self.couples.len() - 1].joint.s;
        self.couples.push(
            Couple {
                joint: Joint {
                    motor_type: MotorType::Neo550,
                    s,
                    v: Rat::from_int(0),
                    ratio,
                    angle: Rat::from_int(0),
                },
                link,
            },
        );
        Ok(())
    }

    /// Advance every couple, in index order, by one step of size `dt`
    /// under the one shared control input `current`, and record that
    /// current as the latest commanded value.  On success the new state
    /// is exactly `advance_opt` of the old; when any couple's exact step
    /// leaves the stored range the whole chain is left untouched.
    #[verifier::rlimit(30)]
    pub fn advance(&mut self, current: &Rat, dt: &Rat) -> (r: Result<(), ArmError>)
        requires
            old(self).wf(),
            current.wf(),
            dt.wf(),
        ensures
            final(self).wf(),
            final(self).commanded() == Some(*current),
            r is Ok <==> advance_opt(old(self)@, current@, dt@) is Some,
            r is Err ==> final(self)@ == old(self)@ && r == Result::<(), ArmError>::Err(
                ArmError::Unrepresentable,
            ),
            r is Ok ==> final(self)@.len() == old(self)@.len(),
            r is Ok ==> forall|i: int| 0 <= i < old(self)@.len() ==> couple_stepped(
                old(self)@[i],
                final(self)@[i],
                #[trigger] advance_opt(old(self)@, current@, dt@).unwrap()[i],
            ),
    {
        self.last_current = Some(*current);
        let n = self.couples.len();
        let mut upd: Vec<(Rat, Rat)> = Vec::new();
        let mut i: usize = 0;
        while i < n
            invariant
                old(self).wf(),
                current.wf(),
                dt.wf(),
                self@ == old(self)@,
                self.commanded() == Some(*current),
                n == self@.len(),
                i <= n,
                upd@.len() == i,
                forall|j: int| 0 <= j < i ==> #[trigger] step_opt(self@[j], current@, dt@) is Some,
                forall|j: int| 0 <= j < i ==> (#[trigger] upd@[j]).0@ == step_opt(
                    self@[j],
                    current@,
                    dt@,
                ).unwrap().0 && upd@[j].1@ == step_opt(self@[j], current@, dt@).unwrap().1
                    && upd@[j].0.wf() && upd@[j].1.wf(),
            decreases n - i,
        {
            let c = self.couples[i];
            proof {
                lemma_rk4_sound(c, c.joint.v@, current@, dt@);
            }
            let ghost gi = i as int;
            let rv = match rk4_step(&c, &c.joint.v, current, dt) {
                None => {
                    proof {
                        assert(step_opt(old(self)@[gi], current@, dt@) is None);
                    }
                    return Err(ArmError::Unrepresentable);
                },
                Some(x) => x,
            };
            let vn = match rv.try_mul(dt) {
                None => {
                    proof {
                        assert(step_opt(old(self)@[gi], current@, dt@) is None);
                    }
                    return Err(ArmError::Unrepresentable);
                },
                Some(x) => x,
            };
            let dth = match vn.try_mul(dt) {
                None => {
                    proof {
                        assert(step_opt(old(self)@[gi], current@, dt@) is None);
                    }
                    return Err(ArmError::Unrepresentable);
                },
                Some(x) => x,
            };
            let an = match c.joint.angle.try_add(&dth) {
                None => {
                    proof {
                        assert(step_opt(old(self)@[gi], current@, dt@) is None);
                    }
                    return Err(ArmError::Unrepresentable);
                },
                Some(x) => x,
            };
            upd.push((vn, an));
            i += 1;
        }
        let ghost stepped = advance_opt(old(self)@, current@, dt@).unwrap();
        let mut out: Vec<Couple> = Vec::new();
        let mut j: usize = 0;
        while j < n
            invariant
                old(self).wf(),
                current.wf(),
                self@ == old(self)@,
                self.commanded() == Some(*current),
                n == self@.len(),
                j <= n,
                upd@.len() == n,
                advance_opt(self@, current@, dt@) is Some,
                stepped == advance_opt(self@, current@, dt@).unwrap(),
                forall|k: int| 0 <= k < n ==> (#[trigger] upd@[k]).0@ == step_opt(
                    self@[k],
                    current@,
                    dt@,
                ).unwrap().0 && upd@[k].1@ == step_opt(self@[k], current@, dt@).unwrap().1
                    && upd@[k].0.wf() && upd@[k].1.wf(),
                out@.len() == j,
                forall|k: int| 0 <= k < j ==> couple_stepped(
                    self@[k],
                    #[trigger] out@[k],
                    stepped[k],
                ) && out@[k].wf(),
            decreases n - j,
        {
            let c = self.couples[j];
            let (vn, an) = upd[j];
            out.push(
                Couple {
                    joint: Joint {
                        motor_type: c.joint.motor_type,
                        s: c.joint.s,
                        v: vn,
                        ratio: c.joint.ratio,
                        angle: an,
                    },
                    link: c.link,
                },
            );
            j += 1;
        }
        self.couples = out;
        Ok(())
    }

    /// Set the length of the link at `index` in place, which changes its
    /// moment of inertia from the next advance on; rejects an index that
    /// names no link, then a non-positive length, and leaves every
    /// couple's state unchanged when it rejects.
    pub fn set_link_length(&mut self, index: usize, length: Rat) -> (r: Result<(), ArmError>)
        requires
            old(self).wf(),
            length.wf(),
        ensures
            final(self).wf(),
            r is Ok <==> index < old(self)@.len() && is_pos(length@),
            index >= old(self)@.len() ==> r == Result::<(), ArmError>::Err(
                ArmError::LinkNotFound(MissingLinkError),
            ) && final(self)@ == old(self)@,
            index < old(self)@.len() && !is_pos(length@) ==> r == Result::<(), ArmError>::Err(
                ArmError::Domain(DomainError::NonPositiveLength),
            ) && final(self)@ == old(self)@,
            r is Ok ==> final(self)@.len() == old(self)@.len(),
            r is Ok ==> forall|i: int|
                0 <= i < old(self)@.len() && i != index ==> final(self)@[i] == old(self)@[i],
            r is Ok ==> final(self)@[index as int].joint == old(self)@[index as int].joint,
            r is Ok ==> final(self)@[index as int].link.m == old(self)@[index as int].link.m,
            r is Ok ==> final(self)@[index as int].link.l == length,
            final(self).commanded() == old(self).commanded(),
    {
        if index >= self.couples.len() {
            return Err(ArmError::LinkNotFound(MissingLinkError));
        }
        if length.numerator() < 1 {
            return Err(ArmError::Domain(DomainError::NonPositiveLength));
        }
        let c = self.couples[index];
        self.couples.set(
            index,
            Couple { joint: c.joint, link: Link { m: c.link.m, l: length } },
        );
        Ok(())
    }

    /// The snapshot of the couple at `index`, for diagnostics: its
    /// anchor, velocity, ratio, moment of inertia and the commanded
    /// current the chain last received.  Rejects an index that names no
    /// link with the distinct index error, and an unrepresentable exact
    /// moment of inertia.
    pub fn couple_state(&self, index: usize) -> (r: Result<CoupleState, ArmError>)
        requires
            self.wf(),
        ensures
            index >= self@.len() ==> r == Result::<CoupleState, ArmError>::Err(
                ArmError::LinkNotFound(MissingLinkError),
            ),
            index < self@.len() ==> (r is Ok <==> moment_opt(
                self@[index as int].link.m@,
                self@[index as int].link.l@,
            ) is Some),
            r matches Ok(st) ==> st.s == self@[index as int].joint.s && st.v
                == self@[index as int].joint.v && st.ratio == self@[index as int].joint.ratio
                && st.u == self.commanded(),
            index < self@.len() && moment_opt(
                self@[index as int].link.m@,
                self@[index as int].link.l@,
            ) is None ==> r == Result::<CoupleState, ArmError>::Err(ArmError::Unrepresentable),
    {
        if index >= self.couples.len() {
            return Err(ArmError::LinkNotFound(MissingLinkError));
        }
        match self.couples[index].state(self.last_current) {
            None => Err(ArmError::Unrepresentable),
            Some(st) => Ok(st),
        }
    }

    /// The geometry of the chain for the renderer: one frame per couple,
    /// in chain order, each carrying the couple's anchor, link length and
    /// angle.
    pub fn geometry(&self) -> (frames: Vec<LinkFrame>)
        requires
            self.wf(),
        ensures
            frames@.len() == self@.len(),
            forall|i: int| 0 <= i < self@.len() ==> (#[trigger] frames@[i]).anchor
                == self@[i].joint.s && frames@[i].length == self@[i].link.l && frames@[i].angle
                == self@[i].joint.angle,
    {
        let n = self.couples.len();
        let mut frames: Vec<LinkFrame> = Vec::new();
        let mut i: usize = 0;
        while i < n
            invariant
                self.wf(),
                n == self@.len(),
                i <= n,
                frames@.len() == i,
                forall|k: int| 0 <= k < i ==> (#[trigger] frames@[k]).anchor == self@[k].joint.s
                    && frames@[k].length == self@[k].link.l && frames@[k].angle
                    == self@[k].joint.angle,
            decreases n - i,
        {
            let c = self.couples[i];
            frames.push(LinkFrame { anchor: c.joint.s, length: c.link.l, angle: c.joint.angle });
            i += 1;
        }
        frames
    }
}

/// For zero commanded current and zero velocity everywhere, whatever one
/// advance computes leaves every velocity and angle unchanged, for any
/// step size: the rest state is an equilibrium fixed point.  (A step the
/// stored range cannot represent is refused without touching any state,
/// so the state is unchanged in every outcome.)
pub proof fn lemma_advance_at_rest(cs: Seq<Couple>, u: (int, int), dt: (int, int))
    requires
        forall|i: int| 0 <= i < cs.len() ==> (#[trigger] cs[i]).wf(),
        forall|i: int| 0 <= i < cs.len() ==> rat_eq((#[trigger] cs[i]).joint.v@, pzero()),
        in_range(u),
        in_range(dt),
        rat_eq(u, pzero()),
    ensures
        advance_opt(cs, u, dt) matches Some(upd) ==> forall|i: int|
            0 <= i < cs.len() ==> rat_eq((#[trigger] upd[i]).0, cs[i].joint.v@) && rat_eq(
                upd[i].1,
                cs[i].joint.angle@,
            ),
{
    if advance_opt(cs, u, dt) is Some {
        let upd = advance_opt(cs, u, dt).unwrap();
        assert forall|i: int| 0 <= i < cs.len() implies rat_eq(
            (#[trigger] upd[i]).0,
            cs[i].joint.v@,
        ) && rat_eq(upd[i].1, cs[i].joint.angle@) by {
            let c = cs[i];
            assert(step_opt(c, u, dt) is Some);
            lemma_rk4_zero(c, c.joint.v@, u, dt);
            let r = rk4_opt(c, c.joint.v@, u, dt).unwrap();
            lemma_pwf_ops(r, dt);
            lemma_pmul_num_zero(r, dt);
            lemma_norm_opt(crate::rat::pmul(r, dt));
            let vn = mmul(r, dt).unwrap();
            lemma_pwf_ops(vn, dt);
            lemma_pmul_num_zero(vn, dt);
            lemma_norm_opt(crate::rat::pmul(vn, dt));
            lemma_padd_zero_unit(c.joint.angle@);
            lemma_norm_opt(c.joint.angle@);
            let an = madd(c.joint.angle@, (0int, 1int)).unwrap();
        }
    }
}

/// Advancing with zero current over zero elapsed time is a no-op on every
/// couple at rest: the chain's state is unchanged in every outcome.
pub proof fn lemma_advance_zero_inputs(cs: Seq<Couple>, u: (int, int), dt: (int, int))
    requires
        forall|i: int| 0 <= i < cs.len() ==> (#[trigger] cs[i]).wf(),
        forall|i: int| 0 <= i < cs.len() ==> rat_eq((#[trigger] cs[i]).joint.v@, pzero()),
        in_range(u),
        in_range(dt),
        rat_eq(u, pzero()),
        rat_eq(dt, pzero()),
    ensures
        advance_opt(cs, u, dt) matches Some(upd) ==> forall|i: int|
            0 <= i < cs.len() ==> rat_eq((#[trigger] upd[i]).0, cs[i].joint.v@) && rat_eq(
                upd[i].1,
                cs[i].joint.angle@,
            ),
{
    lemma_advance_at_rest(cs, u, dt);
}

} // verus!

use armsim::arm::{Arm, LinkFrame};
use armsim::couple::CoupleState;
use armsim::errors::{ArmError, DomainError, MissingLinkError};
use armsim::integrator::{rk4_step, LinearDamping};
use armsim::link::Link;
use armsim::motor::MotorType;
use armsim::point::Point;
use armsim::rat::Rat;

fn to_f64(r: &Rat) -> f64 {
    r.numerator() as f64 / r.denominator() as f64
}

fn origin() -> Point {
    Point::new(Rat::from_int(0), Rat::from_int(0))
}

fn base_arm() -> Arm {
    // mass 0.05 kg, length 0.2 m, gear ratio 32.
    Arm::new(
        origin(),
        MotorType::Neo550,
        Rat::from_int(32),
        Rat::new(1, 20).unwrap(),
        Rat::new(1, 5).unwrap(),
    )
    .unwrap()
}

#[test]
fn rational_arithmetic_is_exact_and_reduced() {
    let half = Rat::new(1, 2).unwrap();
    let third = Rat::new(1, 3).unwrap();
    let sum = half.try_add(&third).unwrap();
    assert_eq!(sum.numerator(), 5);
    assert_eq!(sum.denominator(), 6);
    let prod = half.try_mul(&Rat::new(2, 3).unwrap()).unwrap();
    assert_eq!(prod.numerator(), 1);
    assert_eq!(prod.denominator(), 3);
    let quot = half.try_div(&third).unwrap();
    assert_eq!(quot.numerator(), 3);
    assert_eq!(quot.denominator(), 2);
    let diff = third.try_sub(&half).unwrap();
    assert_eq!(diff.numerator(), -1);
    assert_eq!(diff.denominator(), 6);
}

#[test]
fn rational_constructor_normalises_signs_and_rejects_zero_denominator() {
    assert!(Rat::new(1, 0).is_none());
    let r = Rat::new(2, -4).unwrap();
    assert_eq!(r.numerator(), -1);
    assert_eq!(r.denominator(), 2);
}

#[test]
fn moment_of_inertia_matches_rod_formula() {
    // (1/3) * 0.05 * 0.2^2 = 0.0006667 exactly 1/1500.
    let link = Link::new(Rat::new(1, 20).unwrap(), Rat::new(1, 5).unwrap()).unwrap();
    let moi = link.moment().unwrap();
    assert_eq!(moi.numerator(), 1);
    assert_eq!(moi.denominator(), 1500);
    assert!((to_f64(&moi) - 0.0006667).abs() < 1e-7);
}

#[test]
fn link_rejects_non_positive_mass_and_length() {
    let good = Rat::new(1, 5).unwrap();
    let zero = Rat::from_int(0);
    assert!(matches!(Link::new(zero, good), Err(DomainError::NonPositiveMass)));
    assert!(matches!(Link::new(good, zero), Err(DomainError::NonPositiveLength)));
}

#[test]
fn advance_at_rest_is_a_fixed_point() {
    // Zero commanded current, zero initial velocity: one step of any
    // size leaves velocity and angle unchanged.
    let mut arm = base_arm();
    arm.advance(&Rat::from_int(0), &Rat::new(1, 100).unwrap()).unwrap();
    let st: CoupleState = arm.couple_state(0).unwrap();
    assert_eq!(st.v.numerator(), 0);
    let frames = arm.geometry();
    assert_eq!(frames[0].angle.numerator(), 0);
}

#[test]
fn advance_with_zero_inputs_is_a_no_op() {
    // Zero control and zero elapsed time on a chain at rest.
    let mut arm = base_arm();
    arm.advance(&Rat::from_int(0), &Rat::from_int(0)).unwrap();
    let st = arm.couple_state(0).unwrap();
    assert_eq!(st.v.numerator(), 0);
    let frames = arm.geometry();
    assert_eq!(frames[0].angle.numerator(), 0);
    assert_eq!(frames[0].length.numerator(), 1);
    assert_eq!(frames[0].length.denominator(), 5);
}

#[test]
fn rk4_matches_exponential_decay_to_fourth_order() {
    // dv/dt = -2 v, v0 = 1, dt = 0.1: one step is exactly the fourth
    // Taylor polynomial of e^(-0.2), that is
    // 1 - 1/5 + 1/50 - 1/750 + 1/15000 = 12281/15000, and so it
    // approximates e^(-0.2) with error far below the fifth power of
    // k*dt.
    let lin = LinearDamping { k: Rat::from_int(2) };
    let v1 = rk4_step(&lin, &Rat::from_int(1), &Rat::from_int(0), &Rat::new(1, 10).unwrap())
        .unwrap();
    assert_eq!(v1.numerator(), 12281);
    assert_eq!(v1.denominator(), 15000);
    let exact = (-0.2f64).exp();
    assert!((to_f64(&v1) - exact).abs() < 1e-5);
}

#[test]
fn set_link_length_rejects_out_of_range_index_and_keeps_state() {
    let mut arm = base_arm();
    let before = arm.geometry();
    let r = arm.set_link_length(3, Rat::new(3, 10).unwrap());
    assert_eq!(r, Err(ArmError::LinkNotFound(MissingLinkError)));
    let after = arm.geometry();
    assert_eq!(before.len(), after.len());
    assert_eq!(before[0].length.numerator(), after[0].length.numerator());
    assert_eq!(before[0].length.denominator(), after[0].length.denominator());
    assert_eq!(before[0].angle.numerator(), after[0].angle.numerator());
}

#[test]
fn set_link_length_rejects_non_positive_length() {
    let mut arm = base_arm();
    let r = arm.set_link_length(0, Rat::from_int(0));
    assert_eq!(r, Err(ArmError::Domain(DomainError::NonPositiveLength)));
    let frames = arm.geometry();
    assert_eq!(frames[0].length.numerator(), 1);
    assert_eq!(frames[0].length.denominator(), 5);
}

#[test]
fn set_link_length_updates_the_named_link() {
    let mut arm = base_arm();
    arm.set_link_length(0, Rat::new(3, 10).unwrap()).unwrap();
    let frames = arm.geometry();
    assert_eq!(frames[0].length.numerator(), 3);
    assert_eq!(frames[0].length.denominator(), 10);
}

#[test]
fn appended_links_inherit_anchors_and_extend_geometry() {
    // Appending N links gives N+1 geometry entries, each anchored at the
    // previous couple's anchor at the time of append.
    let mut arm = base_arm();
    let m = Rat::new(1, 20).unwrap();
    let l = Rat::new(1, 5).unwrap();
    for _ in 0..3 {
        arm.add_link(m, l, Rat::from_int(16)).unwrap();
    }
    let frames: Vec<LinkFrame> = arm.geometry();
    assert_eq!(frames.len(), 4);
    for f in frames.iter() {
        assert_eq!(f.anchor.x.numerator(), 0);
        assert_eq!(f.anchor.y.numerator(), 0);
    }
}

#[test]
fn add_link_rejects_non_positive_ratio() {
    let mut arm = base_arm();
    let m = Rat::new(1, 20).unwrap();
    let l = Rat::new(1, 5).unwrap();
    assert_eq!(arm.add_link(m, l, Rat::from_int(0)), Err(DomainError::NonPositiveRatio));
    assert_eq!(arm.geometry().len(), 1);
}

#[test]
fn arm_new_rejects_non_positive_quantities() {
    let zero = Rat::from_int(0);
    let good = Rat::new(1, 5).unwrap();
    let r = Arm::new(origin(), MotorType::Neo550, zero, good, good);
    assert!(matches!(r, Err(DomainError::NonPositiveRatio)));
    let r = Arm::new(origin(), MotorType::Neo550, good, zero, good);
    assert!(matches!(r, Err(DomainError::NonPositiveMass)));
    let r = Arm::new(origin(), MotorType::Neo550, good, good, zero);
    assert!(matches!(r, Err(DomainError::NonPositiveLength)));
}

#[test]
fn driven_arm_matches_reference_step() {
    // One couple: mass 0.05 kg, length 0.2 m, ratio 32, NEO 550
    // constants Kt = 0.0097, Kv = 917, R = 0.12; current 10 A,
    // dt = 0.01 s, initial velocity zero.  Velocity and angle both move
    // in the direction driven by the positive current, and agree with a
    // floating-point evaluation of the same formulas.
    let mut arm = base_arm();
    arm.advance(&Rat::from_int(10), &Rat::new(1, 100).unwrap()).unwrap();
    let st = arm.couple_state(0).unwrap();
    let v = to_f64(&st.v);
    let frames = arm.geometry();
    let angle = to_f64(&frames[0].angle);
    assert!(v > 0.0);
    assert!(angle > 0.0);

    // Reference computation in f64.
    let (kt, kv, rr) = (0.0097f64, 917.0f64, 0.12f64);
    let (ratio, u, dt) = (32.0f64, 10.0f64, 0.01f64);
    let moment = (1.0 / 3.0) * 0.05 * 0.2f64.powi(2);
    let alpha = |v: f64| -> f64 {
        -(ratio * ratio * kt * v) / (kv * rr * moment) + (u * ratio * kt) / moment
    };
    let k1 = alpha(0.0);
    let k2 = alpha(dt / 2.0 * k1);
    let k3 = alpha(dt / 2.0 * k2);
    let k4 = alpha(dt * k3);
    let r = 0.0 + dt / 6.0 * (k1 + 2.0 * k2 + 2.0 * k3 + k4);
    let v_ref = r * dt;
    let angle_ref = v_ref * dt;
    assert!((v - v_ref).abs() < 1e-9 * v_ref.abs());
    assert!((angle - angle_ref).abs() < 1e-9 * angle_ref.abs());
}

#[test]
fn unrepresentable_step_is_refused_and_leaves_state() {
    // A step size with a huge odd denominator cannot be halved within
    // the stored range, so the advance is refused whole.
    let mut arm = base_arm();
    arm.advance(&Rat::from_int(10), &Rat::new(1, 100).unwrap()).unwrap();
    let before = to_f64(&arm.couple_state(0).unwrap().v);
    let tiny = Rat::new(1, 4611686018427387903).unwrap();
    let r = arm.advance(&Rat::from_int(10), &tiny);
    assert_eq!(r, Err(ArmError::Unrepresentable));
    let after = to_f64(&arm.couple_state(0).unwrap().v);
    assert_eq!(before, after);
}

#[test]
fn couple_state_reports_commanded_current_and_ratio() {
    let mut arm = base_arm();
    let st = arm.couple_state(0).unwrap();
    assert_eq!(st.ratio.numerator(), 32);
    assert_eq!(st.ratio.denominator(), 1);
    assert!(st.u.is_none());
    arm.advance(&Rat::from_int(10), &Rat::new(1, 100).unwrap()).unwrap();
    let st = arm.couple_state(0).unwrap();
    let u = st.u.unwrap();
    assert_eq!(u.numerator(), 10);
    assert_eq!(u.denominator(), 1);
    assert!(matches!(arm.couple_state(9), Err(ArmError::LinkNotFound(MissingLinkError))));
}

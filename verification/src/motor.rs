//! Motor constants.
//!
//! The constants of a permanently excited DC gearmotor are kept as an
//! immutable record keyed by the motor variant, so that further variants
//! can be added without touching the model code.  The one variant so far
//! is the NEO 550: torque constant `Kt` (stall torque over stall
//! current), velocity constant `Kv` (from the datasheet), winding
//! resistance `R` (nominal voltage over stall current) and the nominal
//! supply voltage.

use crate::rat::{is_pos, Rat};
use vstd::prelude::*;

verus! {

/// The motor variant driving a joint.
#[derive(Clone, Copy, Debug, PartialEq, Eq, Structural)]
pub enum MotorType {
    /// The default motor.
    Neo550,
}

/// Torque constant of a motor variant, as a fraction.
pub open spec fn kt_spec(t: MotorType) -> (int, int) {
    match t {
        MotorType::Neo550 => (97int, 10000int),
    }
}

/// Velocity constant of a motor variant, as a fraction.
pub open spec fn kv_spec(t: MotorType) -> (int, int) {
    match t {
        MotorType::Neo550 => (917int, 1int),
    }
}

/// Winding resistance of a motor variant, as a fraction.
pub open spec fn resistance_spec(t: MotorType) -> (int, int) {
    match t {
        MotorType::Neo550 => (3int, 25int),
    }
}

/// Nominal supply voltage of a motor variant, as a fraction.
pub open spec fn voltage_spec(t: MotorType) -> (int, int) {
    match t {
        MotorType::Neo550 => (12int, 1int),
    }
}

/// The electrical and mechanical constants of one motor variant.
#[derive(Clone, Copy, Debug)]
pub struct MotorSpec {
    /// Torque constant `Kt`, in newton metres per ampere.
    pub kt: Rat,
    /// Velocity constant `Kv`, in revolutions per minute per volt.
    pub kv: Rat,
    /// Winding resistance `R`, in ohms.
    pub resistance: Rat,
    /// Nominal supply voltage, in volts.
    pub voltage: Rat,
}

impl MotorSpec {
    /// The constants of the given motor variant.
    pub fn of(t: &MotorType) -> (r: MotorSpec)
        ensures
            r.kt@ == kt_spec(*t) && r.kt.wf() && is_pos(r.kt@),
            r.kv@ == kv_spec(*t) && r.kv.wf() && is_pos(r.kv@),
            r.resistance@ == resistance_spec(*t) && r.resistance.wf() && is_pos(r.resistance@),
            r.voltage@ == voltage_spec(*t) && r.voltage.wf() && is_pos(r.voltage@),
    {
        match t {
            MotorType::Neo550 => MotorSpec {
                kt: Rat::make(97, 10000),
                kv: Rat::make(917, 1),
                resistance: Rat::make(3, 25),
                voltage: Rat::make(12, 1),
            },
        }
    }
}

} // verus!

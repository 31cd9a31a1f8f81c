//! Round-robin motor slot for ESC telemetry polling.

use vstd::prelude::*;

verus! {

#[derive(Clone, Copy, Debug, PartialEq, Eq, Structural)]
pub enum MotorID {
    /// No motor slot selected yet.
    Unassigned,
    Motor1,
    Motor2,
    Motor3,
    Motor4,
}

/// The slot that follows `m`: `Unassigned` starts at `Motor1`, and `Motor4` wraps to `Motor1`.
pub open spec fn next_motor(m: MotorID) -> MotorID {
    match m {
        MotorID::Unassigned => MotorID::Motor1,
        MotorID::Motor1 => MotorID::Motor2,
        MotorID::Motor2 => MotorID::Motor3,
        MotorID::Motor3 => MotorID::Motor4,
        MotorID::Motor4 => MotorID::Motor1,
    }
}

impl MotorID {
    pub fn increment_with_wraparound(&mut self)
        ensures
            *final(self) == next_motor(*old(self)),
    {
        *self = match *self {
            MotorID::Unassigned => MotorID::Motor1,
            MotorID::Motor1 => MotorID::Motor2,
            MotorID::Motor2 => MotorID::Motor3,
            MotorID::Motor3 => MotorID::Motor4,
            MotorID::Motor4 => MotorID::Motor1,
        }
    }
}

impl Default for MotorID {
    fn default() -> (r: Self)
        ensures
            r == MotorID::Unassigned,
    {
        MotorID::Unassigned
    }
}

/// Incrementing never lands on `Unassigned`, and four increments bring any motor slot back
/// to itself: the polling cycles through the four motors.
pub proof fn lemma_increment_cycles(m: MotorID)
    ensures
        next_motor(m) != MotorID::Unassigned,
        m != MotorID::Unassigned ==> next_motor(next_motor(next_motor(next_motor(m)))) == m,
{
}

} // verus!

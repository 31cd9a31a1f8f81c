//! Battery current, as reported by the ESC.

use vstd::prelude::*;
use crate::wire::{be_u16, u16_from_be};

verus! {

/// Battery current, held as the wire's integer count of hundredths of an amp.
#[derive(Clone, Copy, Debug, PartialEq, Eq, Structural)]
pub struct Current(u16);

impl View for Current {
    type V = u16;

    /// The current in hundredths of an amp.
    closed spec fn view(&self) -> u16 {
        self.0
    }
}

impl Current {
    /// Decodes the big-endian centiamp word held in the first two bytes.
    pub fn from_bytes(bytes: &[u8]) -> (r: Self)
        requires
            bytes@.len() >= 2,
        ensures
            r@ == be_u16(bytes@[0], bytes@[1]),
    {
        Current(u16_from_be(bytes[0], bytes[1]))
    }

    /// The current in hundredths of an amp (divide by 100 for amps).
    pub fn as_centiamps(self) -> (r: u16)
        ensures
            r == self@,
    {
        self.0
    }

    /// No current.
    pub fn zero() -> (r: Self)
        ensures
            r@ == 0,
    {
        Current(0)
    }
}

impl Default for Current {
    fn default() -> (r: Self)
        ensures
            r@ == 0,
    {
        Current(0)
    }
}

} // verus!

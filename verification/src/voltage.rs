//! Battery voltage, as reported by the ESC.

use vstd::prelude::*;
use crate::wire::{be_u16, u16_from_be};

verus! {

/// Battery voltage, held as the wire's integer count of hundredths of a volt.
#[derive(Clone, Copy, Debug, PartialEq, Eq, Structural)]
pub struct Voltage(u16);

impl View for Voltage {
    type V = u16;

    /// The voltage in hundredths of a volt.
    closed spec fn view(&self) -> u16 {
        self.0
    }
}

impl Voltage {
    /// Decodes the big-endian centivolt word held in the first two bytes.
    pub fn from_bytes(bytes: &[u8]) -> (r: Self)
        requires
            bytes@.len() >= 2,
        ensures
            r@ == be_u16(bytes@[0], bytes@[1]),
    {
        Voltage(u16_from_be(bytes[0], bytes[1]))
    }

    /// The voltage in hundredths of a volt (divide by 100 for volts).
    pub fn as_centivolts(self) -> (r: u16)
        ensures
            r == self@,
    {
        self.0
    }
}

impl Default for Voltage {
    fn default() -> (r: Self)
        ensures
            r@ == 0,
    {
        Voltage(0)
    }
}

} // verus!

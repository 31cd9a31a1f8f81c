//! Electrical RPM, as reported by the ESC.

use vstd::prelude::*;
use crate::wire::{be_u16, u16_from_be};

verus! {

/// Magnetic pole pairs of the motors (12 poles).
pub const POLE_PAIRS: u32 = 6;

/// Electrical RPM, held as the wire's field, which carries electrical RPM / 100.
#[derive(Clone, Copy, Debug, PartialEq, Eq, Structural)]
pub struct ERPM(u16);

impl View for ERPM {
    type V = u16;

    /// The wire field: electrical RPM divided by 100.
    closed spec fn view(&self) -> u16 {
        self.0
    }
}

impl ERPM {
    /// Decodes the big-endian eRPM/100 word held in the first two bytes.
    pub fn from_bytes(bytes: &[u8]) -> (r: Self)
        requires
            bytes@.len() >= 2,
        ensures
            r@ == be_u16(bytes@[0], bytes@[1]),
    {
        ERPM(u16_from_be(bytes[0], bytes[1]))
    }

    /// Electrical RPM (the wire field times 100).
    pub fn as_electrical_rpm(self) -> (r: u32)
        ensures
            r == self@ as int * 100,
    {
        (self.0 as u32) * 100
    }
}

impl Default for ERPM {
    fn default() -> (r: Self)
        ensures
            r@ == 0,
    {
        ERPM(0)
    }
}

} // verus!

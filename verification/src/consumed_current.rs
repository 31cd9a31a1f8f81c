//! Charge drawn from the battery, as reported by the ESC.

use vstd::prelude::*;
use crate::wire::{be_u16, u16_from_be};

verus! {

/// Consumed charge in milliamp-hours.
#[derive(Clone, Copy, Debug, PartialEq, Eq, Structural)]
pub struct ConsumedCurrent(u16);

impl View for ConsumedCurrent {
    type V = u16;

    /// The charge in milliamp-hours.
    closed spec fn view(&self) -> u16 {
        self.0
    }
}

impl ConsumedCurrent {
    /// Decodes the big-endian milliamp-hour word held in the first two bytes.
    pub fn from_bytes(bytes: &[u8]) -> (r: Self)
        requires
            bytes@.len() >= 2,
        ensures
            r@ == be_u16(bytes@[0], bytes@[1]),
    {
        ConsumedCurrent(u16_from_be(bytes[0], bytes[1]))
    }

    pub fn as_milliamphours(self) -> (r: u16)
        ensures
            r == self@,
    {
        self.0
    }
}

impl Default for ConsumedCurrent {
    fn default() -> (r: Self)
        ensures
            r@ == 0,
    {
        ConsumedCurrent(0)
    }
}

} // verus!

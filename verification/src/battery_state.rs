//! The battery fields of an ESC telemetry frame.

use vstd::prelude::*;
use crate::wire::be_u16;
use crate::voltage::Voltage;
use crate::current::Current;
use crate::consumed_current::ConsumedCurrent;

verus! {

#[derive(Clone, Copy, Debug, PartialEq, Eq, Structural)]
pub struct BatteryState {
    pub voltage: Voltage,
    pub current: Current,
    pub consumed_current: ConsumedCurrent,
}

impl BatteryState {
    /// Decodes three big-endian words: voltage, current, consumed charge.
    pub fn from_bytes(bytes: &[u8; 6]) -> (r: Self)
        ensures
            r.voltage@ == be_u16(bytes@[0], bytes@[1]),
            r.current@ == be_u16(bytes@[2], bytes@[3]),
            r.consumed_current@ == be_u16(bytes@[4], bytes@[5]),
    {
        let voltage_bytes = [bytes[0], bytes[1]];
        let current_bytes = [bytes[2], bytes[3]];
        let consumed_current_bytes = [bytes[4], bytes[5]];

        let voltage = Voltage::from_bytes(&voltage_bytes);
        let current = Current::from_bytes(&current_bytes);
        let consumed_current = ConsumedCurrent::from_bytes(&consumed_current_bytes);

        BatteryState { voltage, current, consumed_current }
    }
}

impl Default for BatteryState {
    fn default() -> (r: Self)
        ensures
            r.voltage@ == 0,
            r.current@ == 0,
            r.consumed_current@ == 0,
    {
        BatteryState {
            voltage: Voltage::default(),
            current: Current::default(),
            consumed_current: ConsumedCurrent::default(),
        }
    }
}

} // verus!

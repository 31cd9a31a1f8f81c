//! Decoding of one KISS/BLHeli/AM32 ESC telemetry frame.

use vstd::prelude::*;
use crate::wire::be_u16;
use crate::battery_state::BatteryState;
use crate::erpm::ERPM;
use crate::motor_id::MotorID;

verus! {

/// Length of an ESC telemetry frame: nine data bytes and a CRC byte.
pub const FRAME_LEN: usize = 10;

/// One step of the CRC-8 register (polynomial 0x07, MSB first).
pub open spec fn crc8_step(crc: u8) -> u8 {
    if crc & 0x80u8 != 0 {
        (crc << 1u8) ^ 0x07u8
    } else {
        crc << 1u8
    }
}

/// `k` steps of the CRC-8 register.
pub open spec fn crc8_steps(crc: u8, k: nat) -> u8
    decreases k,
{
    if k == 0 {
        crc
    } else {
        crc8_step(crc8_steps(crc, (k - 1) as nat))
    }
}

/// The CRC-8 (polynomial 0x07, MSB first, initial value 0) of `bytes`.
pub open spec fn crc8(bytes: Seq<u8>) -> u8
    decreases bytes.len(),
{
    if bytes.len() == 0 {
        0
    } else {
        crc8_steps(crc8(bytes.drop_last()) ^ bytes.last(), 8)
    }
}

/// A frame is intact when its last byte is the CRC-8 of the nine before it.
pub open spec fn frame_is_valid(bytes: Seq<u8>) -> bool {
    &&& bytes.len() == FRAME_LEN
    &&& crc8(bytes.take(9)) == bytes[9]
}

proof fn lemma_step_xor(a: u8, b: u8)
    ensures
        crc8_step(a ^ b) == crc8_step(a) ^ crc8_step(b),
{
    assert((if (a ^ b) & 0x80u8 != 0 { ((a ^ b) << 1u8) ^ 0x07u8 } else { (a ^ b) << 1u8 }) == (
    if a & 0x80u8 != 0 { (a << 1u8) ^ 0x07u8 } else { a << 1u8 }) ^ (if b & 0x80u8 != 0 {
        (b << 1u8) ^ 0x07u8
    } else {
        b << 1u8
    })) by (bit_vector);
}

proof fn lemma_steps_xor(a: u8, b: u8, k: nat)
    ensures
        crc8_steps(a ^ b, k) == crc8_steps(a, k) ^ crc8_steps(b, k),
    decreases k,
{
    if k > 0 {
        lemma_steps_xor(a, b, (k - 1) as nat);
        lemma_step_xor(crc8_steps(a, (k - 1) as nat), crc8_steps(b, (k - 1) as nat));
    }
}

proof fn lemma_steps_zero(a: u8, k: nat)
    ensures
        crc8_steps(a, k) == 0 <==> a == 0,
    decreases k,
{
    if k > 0 {
        lemma_steps_zero(a, (k - 1) as nat);
        let c = crc8_steps(a, (k - 1) as nat);
        assert((if c & 0x80u8 != 0 { (c << 1u8) ^ 0x07u8 } else { c << 1u8 }) == 0 <==> c == 0)
            by (bit_vector);
    }
}

/// The bytewise exclusive or of two byte strings of equal length.
pub open spec fn xor_bytes(s: Seq<u8>, t: Seq<u8>) -> Seq<u8> {
    Seq::new(s.len(), |j: int| s[j] ^ t[j])
}

/// The CRC is linear: the CRC of the bytewise exclusive or of two equally long byte
/// strings is the exclusive or of their CRCs.
pub proof fn lemma_crc8_linear(s: Seq<u8>, t: Seq<u8>)
    requires
        s.len() == t.len(),
    ensures
        crc8(xor_bytes(s, t)) == crc8(s) ^ crc8(t),
    decreases s.len(),
{
    if s.len() > 0 {
        let x = xor_bytes(s, t);
        lemma_crc8_linear(s.drop_last(), t.drop_last());
        assert(x.drop_last() =~= xor_bytes(s.drop_last(), t.drop_last()));
        let cs = crc8(s.drop_last());
        let ct = crc8(t.drop_last());
        let bs = s.last();
        let bt = t.last();
        assert((cs ^ ct) ^ (bs ^ bt) == (cs ^ bs) ^ (ct ^ bt)) by (bit_vector);
        assert(x.last() == bs ^ bt);
        lemma_steps_xor(cs ^ bs, ct ^ bt, 8);
    } else {
        assert(0u8 ^ 0u8 == 0u8) by (bit_vector);
    }
}

proof fn lemma_crc8_of_zeros(d: Seq<u8>)
    requires
        forall|j: int| 0 <= j < d.len() ==> #[trigger] d[j] == 0,
    ensures
        crc8(d) == 0,
    decreases d.len(),
{
    if d.len() > 0 {
        lemma_crc8_of_zeros(d.drop_last());
        assert(d[d.len() - 1] == 0);
        lemma_steps_zero(0u8 ^ 0u8, 8);
        assert(0u8 ^ 0u8 == 0u8) by (bit_vector);
    }
}

proof fn lemma_crc8_one_nonzero(d: Seq<u8>, i: int)
    requires
        0 <= i < d.len(),
        d[i] != 0,
        forall|j: int| 0 <= j < d.len() && j != i ==> #[trigger] d[j] == 0,
    ensures
        crc8(d) != 0,
    decreases d.len(),
{
    let c = crc8(d.drop_last());
    let b = d.last();
    if i == d.len() - 1 {
        lemma_crc8_of_zeros(d.drop_last());
        assert(0u8 ^ b == b) by (bit_vector);
    } else {
        lemma_crc8_one_nonzero(d.drop_last(), i);
        assert(d[d.len() - 1] == 0);
        assert(c ^ 0u8 == c) by (bit_vector);
    }
    lemma_steps_zero(c ^ b, 8);
}

/// Every data byte counts: two byte strings of equal length that differ in exactly
/// one byte have different CRCs, so a frame with one corrupted byte is rejected.
pub proof fn lemma_crc8_detects_one_changed_byte(s: Seq<u8>, t: Seq<u8>, i: int)
    requires
        s.len() == t.len(),
        0 <= i < s.len(),
        s[i] != t[i],
        forall|j: int| 0 <= j < s.len() && j != i ==> #[trigger] s[j] == t[j],
    ensures
        crc8(s) != crc8(t),
{
    let d = xor_bytes(s, t);
    assert forall|j: int| 0 <= j < d.len() && j != i implies #[trigger] d[j] == 0 by {
        let a = s[j];
        assert(a ^ a == 0) by (bit_vector);
    }
    let (a, b) = (s[i], t[i]);
    assert(a != b ==> a ^ b != 0) by (bit_vector);
    lemma_crc8_one_nonzero(d, i);
    lemma_crc8_linear(s, t);
    let (x, y) = (crc8(s), crc8(t));
    assert(x == y ==> x ^ y == 0) by (bit_vector);
}

/// Appending its CRC to a byte string gives a string whose CRC is zero.
pub proof fn lemma_crc8_of_checked_string(s: Seq<u8>)
    ensures
        crc8(s.push(crc8(s))) == 0,
{
    let c = crc8(s);
    assert(s.push(c).drop_last() =~= s);
    assert(c ^ c == 0) by (bit_vector);
    lemma_steps_zero(0, 8);
}

/// Each byte enters the register on its own: the CRC of `s` followed by `b` is the
/// CRC of `s` followed by a zero byte, combined by exclusive or with the CRC of `b`
/// alone.
pub proof fn lemma_crc8_push(s: Seq<u8>, b: u8)
    ensures
        crc8(s.push(b)) == crc8(s.push(0)) ^ crc8(seq![b]),
{
    let c = crc8(s);
    assert(s.push(b).drop_last() =~= s);
    assert(s.push(0).drop_last() =~= s);
    assert(seq![b].drop_last() =~= Seq::<u8>::empty());
    assert(crc8(seq![b].drop_last()) == 0);
    assert(seq![b].last() == b);
    assert(s.push(0).last() == 0);
    assert(c ^ b == (c ^ 0u8) ^ (0u8 ^ b)) by (bit_vector);
    lemma_steps_xor(c ^ 0u8, 0u8 ^ b, 8);
}

proof fn lemma_steps8(x: u8)
    ensures
        crc8_steps(x, 8) == crc8_step(crc8_step(crc8_step(crc8_step(crc8_step(crc8_step(crc8_step(crc8_step(x)))))))),
{
    reveal_with_fuel(crc8_steps, 9);
}

proof fn lemma_crc8_take_step(s: Seq<u8>, k: int)
    requires
        0 <= k < s.len(),
    ensures
        crc8(s.take(k + 1)) == crc8_steps(crc8(s.take(k)) ^ s[k], 8),
{
    assert(s.take(k + 1).drop_last() =~= s.take(k));
}

/// The catalogue check value of this CRC-8 (polynomial 0x07, initial value 0, no
/// reflection, no final exclusive or): the CRC of the ASCII text `123456789` is 0xF4.
pub proof fn lemma_crc8_check_value()
    ensures
        crc8(seq![0x31u8, 0x32u8, 0x33u8, 0x34u8, 0x35u8, 0x36u8, 0x37u8, 0x38u8, 0x39u8]) == 0xF4u8,
{
    let s = seq![0x31u8, 0x32u8, 0x33u8, 0x34u8, 0x35u8, 0x36u8, 0x37u8, 0x38u8, 0x39u8];
    assert(s.take(0) =~= Seq::<u8>::empty());
    lemma_crc8_take_step(s, 0);
    lemma_steps8(0x00u8 ^ 0x31u8);
    assert(crc8_step(crc8_step(crc8_step(crc8_step(crc8_step(crc8_step(crc8_step(crc8_step(0x00u8 ^ 0x31u8)))))))) == 0x97u8) by (bit_vector);
    lemma_crc8_take_step(s, 1);
    lemma_steps8(0x97u8 ^ 0x32u8);
    assert(crc8_step(crc8_step(crc8_step(crc8_step(crc8_step(crc8_step(crc8_step(crc8_step(0x97u8 ^ 0x32u8)))))))) == 0x72u8) by (bit_vector);
    lemma_crc8_take_step(s, 2);
    lemma_steps8(0x72u8 ^ 0x33u8);
    assert(crc8_step(crc8_step(crc8_step(crc8_step(crc8_step(crc8_step(crc8_step(crc8_step(0x72u8 ^ 0x33u8)))))))) == 0xc0u8) by (bit_vector);
    lemma_crc8_take_step(s, 3);
    lemma_steps8(0xc0u8 ^ 0x34u8);
    assert(crc8_step(crc8_step(crc8_step(crc8_step(crc8_step(crc8_step(crc8_step(crc8_step(0xc0u8 ^ 0x34u8)))))))) == 0xc2u8) by (bit_vector);
    lemma_crc8_take_step(s, 4);
    lemma_steps8(0xc2u8 ^ 0x35u8);
    assert(crc8_step(crc8_step(crc8_step(crc8_step(crc8_step(crc8_step(crc8_step(crc8_step(0xc2u8 ^ 0x35u8)))))))) == 0xcbu8) by (bit_vector);
    lemma_crc8_take_step(s, 5);
    lemma_steps8(0xcbu8 ^ 0x36u8);
    assert(crc8_step(crc8_step(crc8_step(crc8_step(crc8_step(crc8_step(crc8_step(crc8_step(0xcbu8 ^ 0x36u8)))))))) == 0xfdu8) by (bit_vector);
    lemma_crc8_take_step(s, 6);
    lemma_steps8(0xfdu8 ^ 0x37u8);
    assert(crc8_step(crc8_step(crc8_step(crc8_step(crc8_step(crc8_step(crc8_step(crc8_step(0xfdu8 ^ 0x37u8)))))))) == 0x78u8) by (bit_vector);
    lemma_crc8_take_step(s, 7);
    lemma_steps8(0x78u8 ^ 0x38u8);
    assert(crc8_step(crc8_step(crc8_step(crc8_step(crc8_step(crc8_step(crc8_step(crc8_step(0x78u8 ^ 0x38u8)))))))) == 0xc7u8) by (bit_vector);
    lemma_crc8_take_step(s, 8);
    lemma_steps8(0xc7u8 ^ 0x39u8);
    assert(crc8_step(crc8_step(crc8_step(crc8_step(crc8_step(crc8_step(crc8_step(crc8_step(0xc7u8 ^ 0x39u8)))))))) == 0xf4u8) by (bit_vector);
    assert(s.take(9) =~= s);
}

/// One decoded ESC telemetry frame.
#[derive(Clone, Copy, Debug, PartialEq, Eq, Structural)]
pub struct ESCTelemetrySample {
    /// ESC temperature in whole degrees Celsius.
    pub temperature_celsius: u8,
    pub battery_state: BatteryState,
    pub motor_id: MotorID,
    pub erpm: ERPM,
}

impl ESCTelemetrySample {
    fn crc_step(crc: u8) -> (r: u8)
        ensures
            r == crc8_step(crc),
    {
        if crc & 0x80 != 0 {
            (crc << 1) ^ 0x07
        } else {
            crc << 1
        }
    }

    fn check_crc(bytes: &[u8]) -> (r: bool)
        requires
            bytes@.len() >= FRAME_LEN,
        ensures
            r == (crc8(bytes@.take(9)) == bytes@[9]),
    {
        let mut crc: u8 = 0;
        let mut i: usize = 0;
        while i < 9
            invariant
                i <= 9,
                bytes@.len() >= FRAME_LEN,
                crc == crc8(bytes@.take(i as int)),
            decreases 9 - i,
        {
            assert(bytes@.take(i + 1).drop_last() == bytes@.take(i as int));
            let start = crc ^ bytes[i];
            crc = start;
            let mut j: usize = 0;
            while j < 8
                invariant
                    j <= 8,
                    crc == crc8_steps(start, j as nat),
                decreases 8 - j,
            {
                crc = Self::crc_step(crc);
                j += 1;
            }
            i += 1;
        }
        crc == bytes[9]
    }

    /// Decodes a frame: `None` unless it is exactly ten bytes with a matching CRC.
    pub fn from_bytes(bytes: &[u8], motor_id: MotorID) -> (r: Option<Self>)
        ensures
            r is Some <==> frame_is_valid(bytes@),
            r matches Some(s) ==> {
                &&& s.temperature_celsius == bytes@[0]
                &&& s.battery_state.voltage@ == be_u16(bytes@[1], bytes@[2])
                &&& s.battery_state.current@ == be_u16(bytes@[3], bytes@[4])
                &&& s.battery_state.consumed_current@ == be_u16(bytes@[5], bytes@[6])
                &&& s.erpm@ == be_u16(bytes@[7], bytes@[8])
                &&& s.motor_id == motor_id
            },
    {
        if bytes.len() != FRAME_LEN {
            return None;
        }
        if !Self::check_crc(bytes) {
            return None;
        }
        let temperature_celsius = bytes[0];
        let battery_bytes = [bytes[1], bytes[2], bytes[3], bytes[4], bytes[5], bytes[6]];
        let battery_state = BatteryState::from_bytes(&battery_bytes);
        let erpm_bytes = [bytes[7], bytes[8]];
        let erpm = ERPM::from_bytes(&erpm_bytes);
        Some(ESCTelemetrySample { temperature_celsius, battery_state, motor_id, erpm })
    }
}

impl Default for ESCTelemetrySample {
    fn default() -> (r: Self)
        ensures
            r.temperature_celsius == 0,
            r.battery_state.voltage@ == 0,
            r.battery_state.current@ == 0,
            r.battery_state.consumed_current@ == 0,
            r.motor_id == MotorID::Unassigned,
            r.erpm@ == 0,
    {
        ESCTelemetrySample {
            temperature_celsius: 0,
            battery_state: BatteryState::default(),
            motor_id: MotorID::default(),
            erpm: ERPM::default(),
        }
    }
}

} // verus!

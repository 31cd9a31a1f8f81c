//! Decisions of the remote's radio relay to the drone: which command goes out on
//! each 10 ms tick, and the message sequence numbering.

use vstd::prelude::*;
use crate::signals::Latch;
use crate::signals::reset_imu;

verus! {

/// Every this many sequence numbers the last mode command is re-sent, so that a mode
/// change missed over the lossy link heals itself.
pub const HEARTBEAT_PERIOD: u32 = 25;

/// Whether the message with this sequence number is a mode heartbeat.
pub open spec fn is_heartbeat(sequence_count: u32) -> bool {
    sequence_count % HEARTBEAT_PERIOD == 0
}

/// The relay's state, over the ground station's command type `C`.
pub struct DroneLink<C> {
    /// Sequence number of the next message.
    pub sequence_count: u32,
    /// The most recent mode-change command, re-sent on heartbeats.
    pub last_mode_command: C,
}

impl<C: Copy> DroneLink<C> {
    /// Starts at sequence 0 with `initial_mode_command` as the mode to re-send.
    pub fn new(initial_mode_command: C) -> (r: Self)
        ensures
            r.sequence_count == 0,
            r.last_mode_command == initial_mode_command,
    {
        DroneLink { sequence_count: 0, last_mode_command: initial_mode_command }
    }

    /// Plans one tick: records `command` as the last mode command when it is a mode
    /// change, consumes a pending IMU-reset request, and returns the message to send
    /// as `(sequence number, command)`. A pending reset goes out first; otherwise a
    /// heartbeat tick re-sends the last mode command; otherwise `command` goes out.
    pub fn next_message(
        &mut self,
        command: C,
        command_is_mode_update: bool,
        reset_request: &mut Latch<()>,
        reset_command: C,
    ) -> (msg: (u32, C))
        ensures
            final(self).sequence_count == old(self).sequence_count,
            final(self).last_mode_command == if command_is_mode_update {
                command
            } else {
                old(self).last_mode_command
            },
            final(reset_request)@ is None,
            msg.0 == old(self).sequence_count,
            msg.1 == if old(reset_request)@ is Some {
                reset_command
            } else if is_heartbeat(old(self).sequence_count) {
                final(self).last_mode_command
            } else {
                command
            },
    {
        if command_is_mode_update {
            self.last_mode_command = command;
        }
        let heartbeat = self.sequence_count % HEARTBEAT_PERIOD == 0;
        let to_send = if reset_imu::take(reset_request) {
            reset_command
        } else if heartbeat {
            self.last_mode_command
        } else {
            command
        };
        (self.sequence_count, to_send)
    }

    /// Records that the planned message went out: the sequence number advances,
    /// wrapping at `u32::MAX`. Not called when sending failed.
    pub fn message_sent(&mut self)
        ensures
            final(self).sequence_count == next_sequence(old(self).sequence_count),
            final(self).last_mode_command == old(self).last_mode_command,
    {
        self.sequence_count = self.sequence_count.wrapping_add(1);
    }

    /// Takes the outcome of sending the planned message and decides the rest of the
    /// tick: after a successful send the reply is listened for (returns `true`) and
    /// the sequence number advances; after a failed one nothing is received
    /// (returns `false`) and the next tick reuses the same sequence number.
    pub fn send_finished(&mut self, sent: bool) -> (listen: bool)
        ensures
            listen == sent,
            final(self).sequence_count == after_send(old(self).sequence_count, sent),
            final(self).last_mode_command == old(self).last_mode_command,
    {
        if sent {
            self.message_sent();
        }
        sent
    }
}

/// The sequence number after `s`, wrapping at `u32::MAX`.
pub open spec fn next_sequence(s: u32) -> u32 {
    if s == u32::MAX {
        0
    } else {
        (s + 1) as u32
    }
}

/// The sequence number after a send from `s` that succeeded (`sent`) or failed.
pub open spec fn after_send(s: u32, sent: bool) -> u32 {
    if sent {
        next_sequence(s)
    } else {
        s
    }
}

/// The sequence number after a run of ticks from a new link, given whether each
/// tick's send succeeded. Planning a tick leaves the number alone.
pub open spec fn sequence_after(outcomes: Seq<bool>) -> u32
    decreases outcomes.len(),
{
    if outcomes.len() == 0 {
        0
    } else {
        after_send(sequence_after(outcomes.drop_last()), outcomes.last())
    }
}

/// How many of the sends succeeded.
pub open spec fn sends_succeeded(outcomes: Seq<bool>) -> nat
    decreases outcomes.len(),
{
    if outcomes.len() == 0 {
        0
    } else {
        sends_succeeded(outcomes.drop_last()) + if outcomes.last() {
            1nat
        } else {
            0nat
        }
    }
}

/// The sequence number counts the messages that went out: starting from 0, after
/// any run of ticks it is the number of successful sends, modulo 2^32. Failed sends
/// leave it unchanged.
pub proof fn lemma_sequence_counts_sent_messages(outcomes: Seq<bool>)
    ensures
        sequence_after(outcomes) as int == sends_succeeded(outcomes) as int % 0x1_0000_0000,
    decreases outcomes.len(),
{
    if outcomes.len() > 0 {
        let rest = outcomes.drop_last();
        lemma_sequence_counts_sent_messages(rest);
        let c = sends_succeeded(rest) as int;
        if outcomes.last() {
            vstd::arithmetic::div_mod::lemma_add_mod_noop(c, 1, 0x1_0000_0000);
            assert((c % 0x1_0000_0000 + 1) % 0x1_0000_0000 == (c + 1) % 0x1_0000_0000);
        }
    }
}

/// Among any `HEARTBEAT_PERIOD` consecutive sequence numbers one is a heartbeat, so
/// the last mode command is re-sent at least once every 25 messages.
pub proof fn lemma_heartbeat_within_period(first: u32)
    requires
        first as int + HEARTBEAT_PERIOD <= u32::MAX + 1,
    ensures
        exists|k: int|
            0 <= k < HEARTBEAT_PERIOD && #[trigger] is_heartbeat((first + k) as u32),
{
    let k = (HEARTBEAT_PERIOD - first % HEARTBEAT_PERIOD) % HEARTBEAT_PERIOD as int;
    assert(is_heartbeat((first + k) as u32));
}

/// The mode heartbeat falls on every 25th sequence number, starting at 0: the
/// first message is a heartbeat, the next heartbeat comes exactly 25 sequence numbers
/// after one, and none comes in between.
pub proof fn lemma_heartbeat_every_25th(s: u32, k: u32)
    requires
        s as int + k as int <= u32::MAX,
    ensures
        is_heartbeat(0),
        is_heartbeat(s) && 0 < k < 25 ==> !is_heartbeat((s + k) as u32),
        is_heartbeat(s) && k == 25 ==> is_heartbeat((s + k) as u32),
        !is_heartbeat(s) && k == 25 ==> !is_heartbeat((s + k) as u32),
{
}

} // verus!

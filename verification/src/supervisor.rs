//! The supervisor's boot sequence: `Booting`, then `Idle`, then `Fault`, each of the
//! first two held for a fixed time, the last held forever.

use vstd::prelude::*;
use crate::remote_state::RemoteState;

verus! {

/// How long each of the first two states is held, in milliseconds.
pub const PHASE_MS: u64 = 5000;

/// The state published after `previous` (`None`: nothing published yet), and how long
/// to hold it before the next step (`None`: forever).
pub open spec fn supervisor_next(previous: Option<RemoteState>) -> (RemoteState, Option<u64>) {
    match previous {
        Option::None => (RemoteState::Booting, Some(PHASE_MS)),
        Option::Some(RemoteState::Booting) => (RemoteState::Idle, Some(PHASE_MS)),
        Option::Some(RemoteState::Idle) => (RemoteState::Fault, Option::None),
        Option::Some(RemoteState::Fault) => (RemoteState::Fault, Option::None),
    }
}

/// One step of the supervisor: the state to publish next and how long to hold it.
pub fn supervisor_step(previous: Option<RemoteState>) -> (r: (RemoteState, Option<u64>))
    ensures
        r == supervisor_next(previous),
{
    match previous {
        Option::None => (RemoteState::Booting, Some(PHASE_MS)),
        Option::Some(RemoteState::Booting) => (RemoteState::Idle, Some(PHASE_MS)),
        Option::Some(RemoteState::Idle) => (RemoteState::Fault, Option::None),
        Option::Some(RemoteState::Fault) => (RemoteState::Fault, Option::None),
    }
}

/// From boot the supervisor publishes `Booting` for 5 s, `Idle` for 5 s, then `Fault`,
/// which it holds forever.
pub proof fn lemma_boot_sequence()
    ensures
        supervisor_next(Option::None) == (RemoteState::Booting, Some(PHASE_MS)),
        supervisor_next(Some(RemoteState::Booting)) == (RemoteState::Idle, Some(PHASE_MS)),
        supervisor_next(Some(RemoteState::Idle)) == (RemoteState::Fault, Option::<u64>::None),
        forall|s: RemoteState| #[trigger] supervisor_next(Some(s)).1 is None ==> supervisor_next(Some(s)).0 == RemoteState::Fault,
        supervisor_next(Some(RemoteState::Fault)).0 == RemoteState::Fault,
{
}

} // verus!

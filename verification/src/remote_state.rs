//! System-wide state of the remote, owned by the supervisor.

use vstd::prelude::*;

verus! {

#[derive(Clone, Copy, Debug, PartialEq, Eq, Structural)]
pub enum RemoteState {
    Booting,
    Idle,
    Fault,
}

} // verus!

//! Status values that the machine reports to its host.

use vstd::prelude::*;

verus! {

/// Reported by every execution step.  The machine becomes `Finished` when the
/// program counter runs past the addressable instruction space or when the
/// call stack over- or underflows; once `Finished`, further steps are no-ops
/// that keep reporting `Finished`.
#[derive(Clone, Copy, Debug, PartialEq, Eq, Structural)]
pub enum ProgramState {
    Running,
    Finished,
}

/// Reported by every timer tick.  `PlaySound` marks the transition of the
/// sound timer from 1 to 0, the moment the host should trigger audio.
#[derive(Clone, Copy, Debug, PartialEq, Eq, Structural)]
pub enum TimerState {
    PlaySound,
    Silent,
}

} // verus!

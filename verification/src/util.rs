//! Small helpers shared by the kernel's entry points.
use vstd::prelude::*;

verus! {

/// Number of iterations one call of [`delay`] spins for.
pub const DELAY_SPINS: u32 = 10000;

/// Status that the kernel hands to the emulator's debug-exit device.
#[derive(Debug, Clone, Copy, PartialEq, Eq, Structural)]
pub enum QemuExitCode {
    Success,
    Failed,
}

impl QemuExitCode {
    /// The value written to the debug-exit port for this status.
    pub open spec fn code(self) -> u32 {
        match self {
            QemuExitCode::Success => 0x10,
            QemuExitCode::Failed => 0x11,
        }
    }

    /// Returns the value written to the debug-exit port for this status.
    pub fn as_u32(self) -> (code: u32)
        ensures
            code == self.code(),
    {
        match self {
            QemuExitCode::Success => 0x10,
            QemuExitCode::Failed => 0x11,
        }
    }
}

/// Burns a fixed number of loop iterations and returns how many it burned.
pub fn delay() -> (spins: u32)
    ensures
        spins == DELAY_SPINS,
{
    let mut spins: u32 = 0;
    while spins < DELAY_SPINS
        invariant
            spins <= DELAY_SPINS,
        decreases DELAY_SPINS - spins,
    {
        spins = spins + 1;
    }
    spins
}

} // verus!

//! Exit signaling toward the host machine that runs the virtual hardware.
//!
//! A freestanding kernel has no process exit code, so the harness reports its
//! overall outcome by writing a numeric code to a dedicated I/O port that the
//! host maps to its exit device. The host observes `(code << 1) | 1`; the two
//! codes below are chosen so that neither observation collides with `1`, the
//! value the host reserves for its own abnormal termination.

use vstd::prelude::*;

verus! {

/// Outcome of a whole run, as signaled to the host.
#[derive(Debug, Copy, Clone, PartialEq, Eq, Structural)]
pub enum QemuExitCode {
    Success,
    Failed,
}

/// The numeric code written to the exit port for each outcome.
pub open spec fn spec_exit_code(c: QemuExitCode) -> u32 {
    match c {
        QemuExitCode::Success => 0x10,
        QemuExitCode::Failed => 0x11,
    }
}

/// What the host observes for a code written to the exit port.
pub open spec fn spec_host_observation(c: QemuExitCode) -> u32 {
    (spec_exit_code(c) << 1) | 1
}

impl QemuExitCode {
    /// The 4-byte value this outcome puts on the exit port.
    pub fn code(self) -> (v: u32)
        ensures
            v == spec_exit_code(self),
    {
        match self {
            QemuExitCode::Success => 0x10,
            QemuExitCode::Failed => 0x11,
        }
    }

    /// The exit status the host process reports after seeing this code.
    pub fn host_observation(self) -> (v: u32)
        ensures
            v == spec_host_observation(self),
    {
        (self.code() << 1) | 1
    }
}

/// Neither outcome is observed by the host as `1` (the host's own failure
/// status), and the two outcomes remain distinguishable from one another.
pub proof fn lemma_exit_codes_unambiguous()
    ensures
        spec_host_observation(QemuExitCode::Success) != 1,
        spec_host_observation(QemuExitCode::Failed) != 1,
        spec_host_observation(QemuExitCode::Success) != spec_host_observation(QemuExitCode::Failed),
{
    assert(((0x10u32 << 1) | 1) == 0x21) by (bit_vector);
    assert(((0x11u32 << 1) | 1) == 0x23) by (bit_vector);
}

} // verus!

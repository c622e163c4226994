//! The choices a user makes about a test.

use vstd::prelude::*;

verus! {

/// When the written data is read back and verified.
#[derive(Debug, Clone, Copy, PartialEq, Eq, Structural)]
pub enum VerifyMode {
    /// Write the test data, then immediately read it back and verify it.
    Immediate,
    /// Write the test data and exit. The data is verified on the next run.
    Later,
    /// Write the test data, wait for a configurable delay, then verify it.
    Delay,
}

impl Default for VerifyMode {
    fn default() -> (mode: Self)
        ensures
            mode == VerifyMode::Immediate,
    {
        VerifyMode::Immediate
    }
}

/// What happens to the test files after verification.
#[derive(Debug, Clone, Copy, PartialEq, Eq, Structural)]
pub enum CleanupMode {
    /// Remove test files after the operation, even if verification failed.
    Always,
    /// Remove test files only after successful verification.
    OnSuccess,
    /// Keep test files for manual inspection.
    Never,
}

impl Default for CleanupMode {
    fn default() -> (mode: Self)
        ensures
            mode == CleanupMode::OnSuccess,
    {
        CleanupMode::OnSuccess
    }
}

/// Whether messages are colored.
#[derive(Debug, Clone, Copy, PartialEq, Eq, Structural)]
pub enum ColorMode {
    /// Color when the output is a terminal.
    Auto,
    /// Color in any case.
    Always,
    /// Never color.
    Never,
}

impl Default for ColorMode {
    fn default() -> (mode: Self)
        ensures
            mode == ColorMode::Auto,
    {
        ColorMode::Auto
    }
}

} // verus!

//! The switches that steer a run.

use vstd::prelude::*;

verus! {

/// What a run is asked to do with the lines it reads.
#[derive(Debug, Clone, Copy, PartialEq, Eq, Structural)]
pub struct RunOptions {
    /// Record `# CONFIG_X is not set` as the symbol `X` with the value `No`.
    pub not_set_as_no: bool,
    /// Downgrade recoverable diagnostics to warnings.
    pub relaxed: bool,
}

} // verus!

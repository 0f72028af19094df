//! Failure modes of a propagation.

use vstd::prelude::*;

verus! {

/// Why a propagation was refused or aborted. Errors are returned, never
/// swallowed; any partial trajectory is discarded with the error.
#[derive(Clone, Copy, PartialEq, Eq, Structural, Debug)]
pub enum IntegrationError {
    /// A non-positive tolerance, step bound or step count was supplied;
    /// detected before the stepping loop starts.
    InvalidConfig,
    /// The position magnitude fell below the configured safe radius during
    /// a derivative evaluation.
    SingularState,
    /// A stage or solution component left the representable range, the
    /// fixed-point analogue of a NaN or infinity.
    NonFiniteResult,
    /// Repeated rejections drove the step size below the configured
    /// minimum without converging.
    StepSizeUnderflow,
    /// The accepted-step count exceeded the configured ceiling before the
    /// end of the time span was reached.
    MaxStepsExceeded,
}

} // verus!

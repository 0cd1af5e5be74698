use vstd::prelude::*;

verus! {

/// Counts objective, gradient, and Hessian evaluations performed by the
/// optimizer.
#[derive(Clone, Copy, Debug, PartialEq, Eq, Structural)]
pub struct EvaluationCounts {
    /// Number of objective-function evaluations.
    pub objective: usize,
    /// Number of gradient evaluations.
    pub gradient: usize,
    /// Number of Hessian evaluations.
    pub hessian: usize,
}

impl Default for EvaluationCounts {
    /// No evaluations of any kind.
    fn default() -> (counts: Self)
        ensures
            counts.objective == 0,
            counts.gradient == 0,
            counts.hessian == 0,
    {
        EvaluationCounts { objective: 0, gradient: 0, hessian: 0 }
    }
}

} // verus!

//! Verified bookkeeping for extended maximum-likelihood sPlot fits: the
//! structural validation of fit inputs, the per-event density checks that
//! guard the likelihood, the layout of the joint yield-and-shape parameter
//! vector, and the optimizer evaluation counters.

pub mod counts;
pub mod density;
pub mod joint;
pub mod validation;

pub use counts::EvaluationCounts;

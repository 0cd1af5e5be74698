# splotrs

Joint extended maximum-likelihood fits of component yields and shared shape
parameters, followed by per-event sWeights.

- `src/` is the verified library (Verus):
  - `validation.rs`: the structural validation of a fit request. The request
    is summarised as plain values (event dimensions, counts, names, the step
    limit, and the outcomes of the floating-point tests), and `validate`
    reports exactly the first failed check in a fixed order.
  - `density.rs`: the per-event density checks that guard the likelihood,
    as a scan that observes one component density class at a time and stops
    at the first invalid one.
  - `joint.rs`: the layout of the joint parameter vector (yields, then
    shape parameters), how it is assembled and split, and the pairing of
    shape-parameter names with their values.
  - `counts.rs`: the optimizer evaluation counters.
- `app/` is ordinary Rust around the library: the floating-point likelihood,
  the L-BFGS-B fit through `ganesh`, the sPlot covariance and sWeights, and
  the Python bindings through `pyo3` and `numpy`.
- `tests/` exercises the verified library.

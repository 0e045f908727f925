# ctc_research_framework (verified core)

Discrete operator diagnostics on axisymmetric (Morris–Thorne, frame-dragging)
background profiles, signature (−+++), geometric units c = G = 1.

The library under `src/` holds the exact-arithmetic part, verified with Verus:

- `exact` — a pair model of rationals used in contracts, and `Rational`, an
  arbitrary-precision rational whose arithmetic is carried out by `num-rational`.
- `algebra::metric` — the exact equatorial slice of the metric and the 4×4
  determinant by Laplace expansion; `algebra::slice_laws` proves the closed form
  of the slice determinant and its Lorentzian (negative) sign.
- `algebra::invariants` — the sample metric report and the redshift series note.
- `energy` — sample stress-energy tensors, the quadratic form T(v, v), and the
  NEC / WEC checks.
- `dynamics` — the kernel-family selector and the verdicts of the Picard smoke
  tests.

The floating-point numerics (numeric metric, Christoffel symbols, explicit
profiles, RK4 geodesics, the row-normalized monodromy kernel, spectral and
Picard diagnostics) live in the `app/` program, which calls the library.

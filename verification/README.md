# unicycle

Forward kinematics of a unicycle whose linear and angular velocities vary
linearly over time, integrated by adaptive midpoint quadrature with a rigorous
per-window error bound.

## Layout

- `src/` is the verified library:
  - `primitives/`: `LinearAndAngular` (controls and slew rates) with
    componentwise `max`, `min` and arithmetic, `Rotation` (angles in
    (−π, π], built through the range check `try_new`) and `Isometry`
    (planar rigid motions).
  - `num.rs`: the `Num` scalar trait the primitives are generic over.
  - `curve.rs`: interpolation search over sorted sample times, and `locate`,
    which picks the sample or the pair of samples around a time.
  - `builder.rs`: the dyadic time windows that the adaptive bisection walks.
  - `error_analysis.rs`: which axis directions an interval of angles passes,
    for the trigonometric bounds of the error analysis.
- `app/` is the program around it: the floating-point scalar `Finite`, the
  floating-point rotation and composition arithmetic, the error analysis, the
  curve builder, `Curve` and the `interpolate` command line tool. Floating-point
  arithmetic is outside what the library can prove, so that code is ordinary
  Rust that calls into the library.
- `tests/` exercises the library.

# propulsion

A verified library of rocket, electric, nuclear, fusion and air-breathing engines.
Authored specifications are validated and compiled into plain data; thrust, flow,
pulses, burn traces, spool dynamics, mode switching and altitude curves are pure
functions of that data.

## Layout

- `src/float.rs`, `src/float/`: IEEE 754 binary64 numbers held as bit patterns. Every
  operation is proved to give the nearest double. `order.rs`, `exact.rs`,
  `accuracy.rs`, `errors.rs`, `range.rs` and `decimals.rs` hold the laws of that
  arithmetic: what order it keeps, where it loses nothing, how near to the real result
  it comes, and how large its results are.
- `src/numerics.rs`: the elementary functions that a host supplies. Nothing is
  promised of their values; contracts that involve them hold for any host that
  answers the same question twice the same way.
- `src/error.rs`, `src/text.rs`, `src/vector.rs`: refusals, message texts, vectors.
- `src/propellant.rs`, `src/nozzle.rs`, `src/cycle.rs`, `src/material.rs`: the
  shared physics.
- `src/liquid.rs`, `src/solid.rs`, `src/engine.rs`, `src/spool.rs`, `src/mount.rs`,
  `src/analyze.rs`: rocket engines.
- `src/rcs.rs`, `src/nuclear.rs`, `src/electric.rs`, `src/fusion.rs`: the other
  space engines.
- `src/cycle_core.rs`, `src/air.rs`, `src/shaft.rs`, `src/estoc.rs`, `src/jet.rs`:
  air-breathers, combined cycles and jet mounts.
- `src/laws/`: what holds across functions: NaN is refused everywhere, thrust never rises
  with ambient pressure, shots are never regained, buffers stay within bounds, energy
  ledgers close up to rounding. Laws of order, refusal and bounds hold whatever the
  numbers. Laws of proportion and balance hold up to a stated count of roundings, and
  only where figures are ordinary, so that nothing underflows or overflows; each says
  what it takes for ordinary. Where a law rests on the host's elementary functions, it
  says what it asks of them.
- `tests/`: the library run against native floating point.
- `app/`: native floats, saved data and atmosphere models around the library.

## What a host brings

Atmosphere samples, shaft steps and the thermo of reaction-control fluids are data that
callers hand in. `app/` shows how: it implements the elementary functions with the
host's own, and turns samples of an atmosphere model into what the analyses read.

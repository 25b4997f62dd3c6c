# aura_anim_core

A verified core for UI animation. The library (`src/`) is proved with Verus:

- `timing`: durations, delays, directions, iteration counts and the schedule of
  a timing (`Timing::phase_at`), plus the timing clock that tweens run on;
- `timeline`: holds, sequences and parallel compositions of animations;
- `runtime`: a slot runtime of motions with generation-checked handles,
  playback IDs, lifecycle events, commands, retargeting and ticking;
- `presence`: mount/unmount control around a visibility motion;
- `binding`: business-state bindings that pick a target and a transition
  factory for each state change;
- `tick`: tick policies for frame- or interval-driven updates, and the ticks
  a runtime asks for under a policy.

`app/` holds what works with floating point or outside traits: interpolation,
tweens, springs, keyframes, field animations and frame handling.
`tests/` exercises the library on integer animations.

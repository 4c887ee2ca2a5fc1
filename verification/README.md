# sphere_direct_audio_engine

The control logic of a native audio engine, verified with Verus.

- `src/` decides: transport and render planning, plug-in delay compensation,
  input and publish rings, monitoring, recording, device switching, offline
  export and the line protocol. Functions state what they return or change; the
  one exception is `ExportCancelToken`, whose flag other threads may raise at
  any time. Proof functions named `law_...` state what holds across calls.
- `app/` performs: devices, files, threads, and arithmetic on samples.
- `tests/` runs the library on concrete values.

Samples and gains cross the library as the bit patterns of floating-point
values. Where a decision needs what the outside world did, the host performs
the step the library names and hands back how it went.

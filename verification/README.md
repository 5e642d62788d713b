# audio-multiplexer

Plays Windows system audio on several output devices at the same time and in
sync. Applications play into one endpoint; that endpoint is captured via WASAPI
loopback, and the stream is rendered to the selected devices, with per-device
volume and clock-drift compensation.

- `src/` is the library, verified with Verus: the broadcast ring buffer, the
  conversion of capture packets, the decisions of the render threads, of the
  engine and of the desktop session, the device and config model. What each
  function does is stated in its `requires` and `ensures`; what holds of several
  functions together is stated in the proof functions named `law_...`.
- `tests/` runs the library.
- `app/` is the program around it: WASAPI and COM, threads and atomics, files,
  the user interface, and the floating-point arithmetic (test tone, gain,
  resampling, drift controller).

Samples are `f32` bit patterns (`u32`) in the library. The only call that it
makes into another crate is `dirs::config_dir`.

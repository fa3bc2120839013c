# omt_audio_out

Playback core for PCM audio received from a media stream: admission and metering of
packets, fitting to the device's rate and channels, the bounded sample ring, the
presentation timeline and its playhead, supervision of a device that stops pulling, and
the worker that opens devices.

- `src/` is the library. Every function carries a contract that Verus proves; `laws.rs`
  states what holds across operations.
- `tests/` runs the library.
- `app/` wraps it for use: threads and locks, the clock, floating-point arithmetic on
  samples, and the cpal device.

Samples travel through the library as the bit patterns of single-precision numbers.
Decoding, metering, limiting and channel mapping work on the patterns; products and
weighted sums are left to the caller between the steps.

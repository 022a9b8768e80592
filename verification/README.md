# audio_engine

Verified core of a small digital audio workstation engine with a fixed two-track topology.

- `src/` is the library, written in Verus. It holds the integer logic of the engine:
  configuration checks, the sample-accurate timeline, compilation of the timeline into
  fixed-size playback snapshots and their publication queue, per-block voice event
  scheduling, voice-slot allocation, the transport clock, effect-rack layout, the preloaded
  sample registry and the editable project model. Its functions carry contracts that Verus
  proves; laws that relate several calls are public proof functions next to the code they
  speak of. The calls into `crossbeam-queue` and `Arc::clone` go through a few trusted
  wrappers, and the two snapshot-queue endpoints, whose results depend on the other thread,
  state only what holds of every outcome.
- `tests/` exercises the library on concrete values.
- `app/` is the application around it: the CPAL output stream, WAV decoding, and the
  floating-point signal path (oscillator, ADSR envelope, synthesizer, PCM playback, gain,
  mixer, master bus, meter and the parameter store). It drives the verified scheduling and
  voice-allocation decisions while rendering.

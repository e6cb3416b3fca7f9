# noise_hoihoi

Control logic of a real-time microphone noise-reduction route, verified with Verus.

A selected microphone is captured, run through a processor at 48 kHz and played into a
virtual microphone (VB-CABLE on Windows, a PulseAudio/PipeWire remap source on Linux).
The library decides everything around the audio itself:

- `config`, `buffers`: configuration checks, latency in frames, ring sizes.
- `pipeline`, `processor`: fixed-size framing of variable chunks and the delay-aligned
  monitor input; the processor trait and the bit-exact pass-through.
- `metrics`: route counters and the first fault message.
- `session`: device and processor selection and the start/stop lifecycle, as decisions
  that the caller carries out.
- `performance`: the ten-second headroom check.
- `compute`, `backend`, `inference`: processor discovery results, identifiers, ordering
  and selection.
- `devices`, `pulse`, `vb_cable`: which audio endpoints are offered, in which order, and
  the virtual-microphone modules.
- `settings`: which stored settings a load reads and how a failure is reported.
- `text`, `sort`, `history`: character-level text, stable sorting, bounded history.

- `settings`: also the earlier key/value store's settings entry, parsed with `ron`.

`app/` holds the command-line program: file and system access, threads, the
floating-point worker loop and capture filter, and on Linux the audio-server calls
(`libpulse-binding`) whose decisions the library makes.

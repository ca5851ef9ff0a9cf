# tau

Verified core of a guitar-to-USB-MIDI pedal (Daisy Seed, embassy).

- `src/` — the library, verified with Verus: note smoothing and note
  tracking (`dsp`), the MIDI looper and USB-MIDI packet encoding (`midi`),
  footswitch edges, expression-pedal channel selection with hysteresis and
  the channel LEDs (`board`), framing of the interleaved audio input
  (`audio`), and sample/note conversions (`utils`).
- `app/` — the firmware around it: embassy tasks, GPIO/ADC/USB/audio
  peripherals, floating-point signal analysis and pitch detection.
- `tests/` — tests of the library on concrete values.

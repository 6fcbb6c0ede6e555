# gregory

A monophonic subtractive synthesizer. The `gregory` library holds the
synthesizer's control logic, verified with Verus:

- `midi`: decoding raw MIDI bytes (through `wmidi`) into note, pitch-bend and
  modulation-wheel events, the MIDI channel filter, and the choice of the
  MIDI input port from a name hint.
- `dsp`: the stage sequence of the ADSR envelopes, note tracking of the
  monophonic voice, filter modes and waveforms.
- `patch_manager`: sanitizing patch names, the file name of a patch, the
  sorted list of patch names found among a directory's files, patch errors.
- `text`: character-sequence helpers (substring search, lexicographic order
  and sorting).

`app/` is the program around it: audio output (`cpal`), MIDI input
(`midir`, `ringbuf`), the window (`eframe`, `egui`, `rfd`), patch files
(`toml`, `serde`), and the floating-point signal path (oscillator, ladder
filter, envelope levels, engine).

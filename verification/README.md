# smplsynth

An eight-channel synthesizer and sampler with MIDI input and CLAP plugin
discovery.

- `src/` is the verified library (Verus): voice allocation with voice
  stealing (`pool`), envelope stages, sample playback bounds and note names
  (`audio`), the routing of commands to the channels and their voices (`engine`), MIDI
  message decoding, delivery to the audio queue and port bookkeeping (`midi`), plugin
  descriptions and the plugin registry (`plugins`), per-channel interface
  state and label texts (`ui`), and character-sequence helpers (`text`).
- `app/` is the program around it: the audio device callback and the
  floating-point signal processing, sample decoding, the MIDI service, the
  egui window and CLAP hosting.
- `tests/` exercises the library on concrete values.

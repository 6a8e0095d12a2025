# mpc_emulator

The logic of a 16-pad sampler, verified with Verus.

- `src/loop_recorder.rs`: recording pad hits into loops named `loop#1`,
  `loop#2`, ..., with the laws that a stopped loop keeps exactly the hits of
  its recording, that finished loops never change, and that loop names follow
  positions and never repeat.
- `src/playback.rs`: which hits of a loop are due at a moment of playback and
  when the loop starts over, with the laws that due hits form one run and
  that two playback steps fire what one later step fires.
- `src/pads.rs`: the keyboard layout of the pad grid and what a click on a
  pad does.
- `src/wav.rs`: 16-bit PCM WAV framing, with the law that every header field
  and every sample reads back from its place in the file.
- `src/clock.rs`: the monotonic clock the recorder reads.

`app/` is the desktop program around the library: the window, audio output,
microphone capture and the scaling of captured float samples to 16 bits.

# tanin

The logic of a terminal ambient-sound mixer, verified with Verus.

- `src/` is the verified library: the sound library and its display order
  (`order`), filtering and category suggestions (`app`), the keyboard state
  machine (`input`), the sounds file's keys and its catalog (`catalog`), adding a sound to
  the user's own TOML sounds file (`user_sounds`), the download queue
  (`downloads`), session bookkeeping (`session`), the bookkeeping of playing
  and fading sinks (`audio`), asset locations (`assets`), pop-up placement
  (`layout`), and character-level string helpers (`text`, `paths`).
- `app/` is the terminal program around it: terminal and logging set-up,
  file and network I/O, decoding each sound's table of a sounds file (its
  `f32` volume and serde's typed fields), the audio device, drawing, and the
  event loop.
- `tests/` exercises the library on concrete values.

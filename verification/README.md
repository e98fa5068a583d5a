# day_piece_media

Audio and video playback for Day apps: a native media player piece, its playback-state
readback, and the stream's "now playing" metadata.

- `src/` is the verified library: decoding the arms' state reports (`state`, `report`),
  parsing metadata payloads (`metadata`), the ICY metadata probe's decisions (`icy`, `probe`),
  what a report writes into the bound signals (`piece`), the native arms' own decisions over
  the plain values they read from their toolkit (`arms`), and the character-sequence
  primitives underneath (`text`).
- `tests/` exercises the library on concrete values.
- `app/` is the piece itself: the `media(url)` builder wired to Day's reactive graph, the probe's
  thread and HTTP fetch, and the per-toolkit renderers, each gated to its feature.

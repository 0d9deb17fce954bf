# watch-party

A peer-to-peer watch party for physical media. A host loads a disc, analyzes it, and streams it in
chunks to a closed group of peers, each of whom watches it in an `mpv` window.

- `src/` is the library, verified with Verus: everything that is decided or computed.
  - `protocol`: configuration, identities, manifests, messages and session states.
  - `disc`: media sources, the report of `ffprobe`, the keyframe scan, the identity of a disc, the
    chunk map and the manifest that follows from them.
  - `stream`: wire frames, authentication codes and the encode step.
  - `player`: the control protocol of `mpv` and the book that its owner keeps.
  - `tui`: the state of the host's screen and the lines that follow from it; fixed titles and
    placeholders stand with the layout in `app/`.
  - `number`, `text`, `rounding`: numbers in text, and floating point in whole numbers.
- `app/` is the program around it: processes, sockets, serialization and the terminal.
- `tests/` runs the library.

Positions and durations are whole numbers of microseconds throughout the library; the program turns
them into seconds where they leave it.

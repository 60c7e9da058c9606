# oryx

The verified core of a desktop music player.

- `src/` is the library, written in Verus: quality grading of tracks and
  collections, grouping the local library into albums, artists and
  playlists, the playback state machine, the requests sent to the playback
  worker and the worker's own transport state, the shuffle and repeat
  order, the download and transfer state, the text field model (UTF-8 and
  UTF-16 offsets, selections, word movement), the session snapshot and its
  restoration, search ranking, and the status lines and notifications the
  application shows. Each function carries a contract that Verus proves. A
  few calls into the standard library and the `url` crate stand behind
  small wrappers whose contracts are believed, not proved; their doc
  comments say what they claim. Where a result comes from the playback
  worker over a channel (a reply, a position), the contract states which
  request the worker's channel accepted (or that none was, and the result
  is then "worker unavailable") and that any other result is the worker's
  reply or "worker disconnected", not what the reply holds.
- `tests/` runs the library on concrete values.
- `app/` is the ordinary Rust around it: the audio output (rodio), the
  operating system's media session (souvlaki), signal handling
  (signal-hook), the spectrum analysis of the visualizer (rustfft), the
  floating-point layout of the window, and the serde forms of what the
  session stores. It hands the library plain values and acts on what the
  library decides.
- The window itself is not here. It was drawn with `gpui`, which is not
  among this project's dependencies: the element trees of the panels,
  overlays and menus are left out, while the decisions they showed (row
  texts, badges, highlights, prompt texts and keys, status lines) stand in
  `src/`.

# scuffle_video

A verified library for the Scuffle video stack: HLS playlist parsing and
writing, the decisions of the web player (variant switching, playlist
refreshes, media requests, listeners), and RTMP control messages.

- `src/` holds the library, proved with Verus: every public function states
  what it returns in its contract, and the laws that tie functions together
  are proof functions named `law_*`.
- `tests/` runs the library on concrete values.
- `app/` holds what the library cannot: the JSON forms of the playlist types,
  the floating-point timing and bandwidth estimates of the player, and the
  building of request addresses with the `url` crate.

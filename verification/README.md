# rmpc

The decision and formatting logic of a terminal client for the Music Player
Daemon, written in Verus and proved against its contracts.

- `src/` — the library. Song properties and formats (`song`, `property`,
  `line`, `spans`, `preview`), the queue and its actions (`queue`,
  `queue_header`), the search pane and the older search screen (`search`,
  `screens::search`), the browsing panes and screens (`panes`, `screens`),
  album grouping for the artist and tag browsers (`album_groups`,
  `tag_browser`), lyrics and log layout (`lyrics`, `logs`), focus between
  panes (`tab_screen`), the tab bar and the volume slider (`tabs`, `volume`),
  and character-level text helpers (`text`).
- `tests/` — scenarios on concrete values.
- `app/` — the terminal side: conversions to and from the terminal library's
  types, widgets, and the mouse arithmetic done in floating point.

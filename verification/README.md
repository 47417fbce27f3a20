# mu

The verified core of a family of music players that share one song
library: a terminal player with a three-column browser, a queue and a
search screen, and desktop players with an artist list, an explicit queue,
playlists, a command palette and a context menu.

- `src/` is the library, written in Verus. Every function states what it
  does in `requires`/`ensures` and Verus proves it: the database line format
  and its round trips, the library grouped by artist and album, playlists,
  list cursors, queues, selections, key bindings, the palette and menus,
  what clicks on the artist and playlist pages do,
  cover decoding and scaling, the side panel and player controls, and what
  a search ranks. The few calls into other crates (`rand`, `zune-png`, and
  a handful of `std` functions) go through small trusted wrappers whose
  contracts say what is assumed of them.
- `app/` is a command-line front end over the library: it reads and writes
  the files in the configuration folder, scores search results (floating
  point), computes the exact filter weights for thumbnails, and decodes
  JPEG covers, whose decoder may panic on malformed files, under a panic
  guard.
- `tests/` holds the tests, run against the compiled library.

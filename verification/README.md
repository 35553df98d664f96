# narchive

A concurrent command-line downloader for Netease Cloud Music, built around a
verified library.

- `src/` is the library, verified with Verus: song-list merging, request and
  URL forming, reading of API replies, file naming, the per-song download
  state machine (with its retry rules), the tag edits of a downloaded track,
  and the reconciliation of a resumed session's configuration.
- `app/` is the program around it: argument parsing (clap), HTTP (reqwest),
  tag file I/O (lofty), progress bars (indicatif), the async runtime (tokio)
  and the file system work. It performs the actions the library decides on.
- `tests/` exercises the library on concrete values.

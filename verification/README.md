# ydl_gui

The logic of a desktop front end for yt-dlp, written in Verus and proved
against its contracts: command lines and tool arguments, version and release
handling, tool settings and statuses, the tool task store, the channel
archive (sync, date checks, merges), download bookkeeping, the parse history,
plugin packages and their zip archives, and browser cookie imports.

- `src/` is the verified library. Each module states its rules as spec
  functions and proves the executable functions against them; the laws that
  span several calls are public proof functions (`law_*`).
- `tests/` runs the library on concrete inputs.
- `app/` is the unverified shell: SQLite, child processes, files, the
  `serde` forms of the records, and the float-based progress parsing.

Trusted items: the specifications of `String::push` and `char::from_u32`;
a wrapper around `str::to_lowercase` whose result is named `lowercase`;
the zip reader (`zip::ZipArchive::new`, `len`, `by_index_raw`, `by_index`)
behind the wrappers of `src/zipfile.rs`, whose findings are named
`zip_read` and `zip_contents`; and two wrappers around `serde_json`
parsing that only say whether a text parses (`json_whole`, `json_leading`).

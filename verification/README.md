# retrotube

The decision logic of RetroTube, a local YouTube → MP3/MP4 converter that drives
`yt-dlp`, written in Verus with its contracts proved.

- `src/` — the verified library:
  - `text` — trimming, prefixes, splitting, joining and decimal numerals over `Seq<char>`;
  - `progress` — reading `yt-dlp`'s structured progress lines and post-processing lines;
  - `conversion` — request validation, the `yt-dlp` argument vector, job ids;
  - `monitor` — following a running job's output and reporting its end;
  - `jobs` — the table of running jobs used for cancellation;
  - `paths` — the output directory and the bundled ffmpeg's candidate paths;
  - `outside` — the calls whose contracts are trusted (`url::Url::parse`, `str::to_lowercase`).
- `app/` — the Tauri shell: commands, subprocess spawning, events, file system.
- `tests/` — tests of the library on concrete values.

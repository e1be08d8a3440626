# javrate-downloader

An HLS (m3u8) downloader that survives short-lived CDN tokens: it finds the
playlist URLs of a video page, runs yt-dlp on the chosen one, and when a
fragment request fails with HTTP 403 it re-extracts the page, grafts the
fresh credentials onto the playlist it was downloading, and restarts yt-dlp
on the same partial file.

The project is written in Verus. Its decisions are a verified library; the
desktop shell around it is ordinary Rust.

## Layout

- `src/` — the verified library.
  - `task_management.rs` — the task state machine and the task store
    (ordered by id, viewed as a map from id to task).
  - `download_engine.rs` — reading yt-dlp output lines, exit handling, the
    yt-dlp command line, and the registry of running processes.
  - `extraction.rs` — playlist URLs in page text, advertisement filtering,
    direct main-video URLs, quality labels, choosing a quality, the capture
    set and timing of the hidden WebView.
  - `cdn_adapter.rs` — the CDN adapters (BunnyCDN, CloudFront, Avjoy, generic):
    matching, credential grafting and token expiry.
  - `auto_relay.rs`, `commands.rs` — the relay and command steps over the
    store.
  - `urls.rs` — URL parsing through the `url` crate, and origins.
  - `clock.rs` — the system clock.
  - `text.rs`, `params.rs`, `progress_line.rs`, `page_scan.rs`, `order.rs`,
    `keyed.rs` — the character-level grammars, orderings and map views the
    modules above are specified with.
  - `laws.rs` — properties that span several operations.
- `tests/` — tests of the library.
- `app/` — the Tauri application: commands, event listeners, processes,
  HTTP, the WebView and the task file.

# codex_pacer

The logic of Codex Pacer, a local desktop tool that reads Codex session logs
and shows usage as pace and API-equivalent value, written in Verus and
proved against its contracts.

## Layout

- `src/` — the verified library.
  - `session_log.rs`: reading a session log: each line's JSON record, then
    the lines in turn (session id, parent, models, token readings,
    rate-limit samples); the session index's titles.
  - `importer.rs`: usage deltas between cumulative readings, which files a
    scan re-reads, what a scan decides, and conversation roots and links.
  - `pricing.rs`: model ids, display names and colours, the official
    pricing page's components and rows, and which catalogue entry a model
    is priced at.
  - `rate_limits.rs`: stored rate-limit samples and metadata, the
    snapshot rebuilt from them, session samples in local time, and the
    answer to a request for live rate limits.
  - `menu_bar.rs`, `settings.rs`: menu bar and popup choices, their
    normalisation, and the stored settings row.
  - `scheduler.rs`: when a scan or a remote download is due, and what one
    tick of the scheduler does.
  - `sources.rs`, `ssh_config.rs`: SSH hosts offered from an SSH config,
    source ids, and the `ssh`/`rsync` arguments of a sync.
  - `subscriptions.rs`, `dates.rs`: subscription records, calendar dates and
    billing cycles.
  - `timestamps.rs`, `text.rs`: RFC 3339 instants and the text operations
    the rest is written with.
- `tests/` — tests of the library on concrete values.
- `app/` — the desktop side: SQLite, the files on disk, `ssh` and `rsync`,
  the pricing page over HTTP, and the figures that are floating point
  (prices, dollar values, the suggested pace).

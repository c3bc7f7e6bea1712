# Deduper

Deduper finds duplicate photos, videos and documents across Google Drive,
Google Photos, Gmail attachments, an Android phone and this PC, keeps one safe
copy in a PC folder (the vault), and moves Google Drive files that are already
saved locally to Drive's Trash, only after the user confirms.

## Layout

- `src/` is the `deduper` library, verified with Verus. It holds every rule
  the app follows: how files are fingerprinted and matched across sources,
  how duplicates are grouped and which Drive files are safe to trash, where a
  file goes in the vault, how a scan and a full check proceed step by step,
  what the OAuth callback carries, how Google's storage numbers are read, the
  settings in `config.json`, and the text of every report and message.
  - `text.rs`: string operations with specifications over `Seq<char>`.
  - `hash.rs`: MD5 / SHA-256 fingerprints and the `md5:<hex>` identity.
  - `config/`: application settings and the built-in OAuth client.
  - `scanner/`: source types, the per-source listings (PC folders, phones,
    Google Drive, Google Photos, Gmail), duplicate analysis (`engine.rs`),
    the vault (`vault.rs`) and the full check (`full_audit.rs`).
  - `oauth/`: Google sign-in, token refresh, Trash moves and storage quota.
  - `reports.rs`, `commands.rs`, `state.rs`, `watcher.rs`: the report, the
    decisions behind the app's commands, cancel requests, phone detection.
- `app/` is ordinary Rust around the library: SQLite, files, HTTP calls to
  Google, the OAuth browser flow, PowerShell for phones, threads, and the
  commands the window calls. It performs the I/O and leaves the rules to
  the library.
- `tests/` exercises the library on concrete values.

The phone scripts (`mtp_detect.ps1`, `mtp_list_files.ps1`) are read at run
time from a `resources` folder beside the program, and
`config::load_builtin_defaults` reads the bundled OAuth client file
(`oauth.defaults.json`).

# getrich_core

The verified core of GetRich, a stock-data foundation: a SQLite store of
listings, quotes and bars, a file-import contract (JSON and CSV), a JSON
method interface shared by a command line and a localhost HTTP API, and a
Tonghuashun-style quote board. The library's decisions are proved with Verus
against contracts stated over mathematical models (`Seq`, `int`, and
models of its own data types).

## Layout

- `src/` — the library. Every function is verified except nine small
  `#[verifier::external_body]` wrappers, whose contracts are trusted: one
  around `String::push`, one around `String::from_utf8_lossy`, two around
  `Path::is_absolute` and `Path::join`, and five around `chrono`'s parsing and
  formatting of timestamps. Each says in its doc comment what it claims.
  The modules:
  - `text` — character sequences: whitespace trimming, ASCII case, decimals.
  - `models`, `symbol` — markets, timeframes, instrument keys, symbol
    normalization and board inference (科创板 / 创业板).
  - `json` — JSON values as plain data, and the configuration deep merge.
  - `csv`, `import`, `time` — the import format: CSV lines and fields,
    listing rows, quote and bar rows, timestamps (read with `chrono`).
  - `invoke`, `http`, `cli` — the method interface, request routing,
    query strings and percent-decoding, response envelopes, CLI commands.
  - `db`, `service`, `view`, `paths`, `config`, `error` — store query shapes
    and migrations, board filters and pages, empty states, retries, paths.
- `tests/` — tests of the library.
- `app/` — the program around it: `getrich` (CLI and `serve`), the rusqlite
  store, the tiny_http server, configuration files and logging.

The workstation's static files are served from `web/` and `icon/` under the
data root, read from disk at each request rather than built into the binary.

The desktop workstation (an `eframe`/`egui` window with the quote board, the
detail view and the K-line chart) is not part of this crate: its drawing is
floating-point work inside an outside GUI trait, and nothing of it is here.

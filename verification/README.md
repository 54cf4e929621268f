# atc_book

A chart book for air traffic controllers and pilots: it finds the aeronautical charts of an
airport (French SIA, UK NATS, and a few other publishers), the AIP document and notices of the
airport, and its ATIS, and keeps them in workspaces of tabs.

The library under `src/` is verified with Verus. Each public function states in its contract
what it returns or changes, over spec functions on sequences, maps and integers:

- `airac`, `calendar`: AIRAC cycles and their dates.
- `models`, `providers`, `sia`, `sia_names`, `uk`, `aip_doc`, `html`, `doc_inline`,
  `notices`, `search`: chart addresses, the parsing of publisher pages, and the merging and
  ordering of search results.
- `atis`: ATIS pages and the cache of fetched reports.
- `state`, `i18n`: application state, settings and their stored values, interface text.
- `tabs`, `navigation`, `switcher`, `workspace_edit`, `workspace_panel`, `workspace_view`,
  `workspace_windows`, `popouts`, `notes`, `viewer`: what each user action does to the
  tabs, the workspaces and the windows.
- `pdf_cache`: names of cached files and what the rendered-page cache keeps.
- `text`, `pattern`, `order`: string and ordering helpers with their lemmas.

Calls into outside crates (date arithmetic, HTML selection, regex character classes, base64,
the system theme) stand behind small trusted functions whose contracts are written in their
doc comments.

`app/` is a command-line program around the library: network requests, the SQLite store,
PDF rendering, and argument handling. `tests/` holds the tests.

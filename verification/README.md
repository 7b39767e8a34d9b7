# kasugai_converter

The logic of the Kasugai converter server, verified with Verus: searching CKAN and DPF
catalogs, filtering their results by file format, planning downloads with safe file names,
building the command lines of the tile converters and installers, the table of conversion
jobs, and the two-step OBJ to 3D Tiles 1.1 pipeline.

- `src/` — the verified library (`text`, `catalog`, `files`, `commands`, `jobs`,
  `tiles11`, `installers`, `tools`).
- `tests/` — tests of the library on concrete values.
- `app/` — the HTTP server around it (axum, tokio, reqwest): routes, processes, files and
  network requests.

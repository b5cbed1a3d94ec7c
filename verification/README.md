# photo_organizer

The verified core of a local-first photo organizer, written in Verus.

- `src/` is the library. Every function carries a contract that Verus proves:
  - `classification`: the registry of classification fields, manual
    overrides, and how automatic and manual values resolve.
  - `places365`: the Places365 scene taxonomy and its photography topics.
  - `organization`, `render`, `conflicts`, `plan`, `manifest`: read-only
    organization plans — rule validation, naming templates, Windows path
    checks, conflict resolution, the plan summary and tree, and manifest
    checks and CSV text.
  - `scope`: the decisions of a library scope scan, one event at a time;
    the caller walks the folder, talks to the store and processes images.
  - `asset_filter`: the SQL condition of an asset query and what each of
    its placeholders binds.
  - `scanner`, `db`, `imaging`, `ipc`, `paths`, `models`, `text`, `error`:
    supported files, file snapshots, content fingerprints fed block by
    block, preview data URLs, the order of imported source roots,
    scan bookkeeping, SQL fragments, EXIF dates, helpers and data types.
  Calls into `chrono`, `blake3`, `base64`, `uuid`, `unicode-normalization-alignments`
  and the platform's path functions go through small trusted wrappers whose
  doc comments say what is assumed of them.
- `tests/` runs the library on concrete values.
- `app/` is the unverified shell: JSON shapes for `serde`, file and
  directory access (it drives a scope scan, discovery and processing,
  through the library's decisions, and finds the source roots of an
  import), and the floating-point colour and hue arithmetic.

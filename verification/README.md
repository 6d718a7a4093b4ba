# clearc

The verified core of ClearC, a Windows disk cleanup and data migration
tool: the rules it applies, the scans it makes, the plans it draws up and
the decisions of every cleanup, migration and rollback, with the operation
log they write and read back.

- `src/` — the library, verified with Verus.
  - `text`, `json` — the character model of strings and the JSON documents
    the operation log holds.
  - `native` — rule paths and their expansion, the registry's string
    encoding, the rule catalog, and the scan of a rule path.
  - `storage` — the entries of the operation log.
  - `commands` — the operations the user interface invokes: scans, the
    cleanup preview and quarantine cleanup, user folder migration, the
    moves of developer tools' data, the log summary, exports and
    rollbacks.
- `app/` — the desktop application around the library: the Tauri commands,
  the file system, the registry, disk space and the log file.
- `tests/` — tests of the library.

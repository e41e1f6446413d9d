# DiskSage core

DiskSage is a local-first disk cleanup tool: it scans for regenerable caches,
build artifacts, duplicates and application leftovers, and removes only what
the user reviewed, through single-use, expiring, revalidated plans that move
items to the Trash.

This crate holds the decisions of that tool with machine-checked contracts:

- `src/` — the verified library: the rule catalogs and registry, the
  protected-path policy, the scan, duplicate and storage walks (as state
  machines driven by the caller), the cleanup, duplicate-cleanup and
  application-uninstall planners with their revalidation, settings
  validation, persistence layout checks, and diagnostics.
  Outside crates are called through small trusted wrappers: BLAKE3 hashing,
  UUIDs, plist decoding and Spotlight date parsing.
  The developer-tool and safe-cache catalogs list their rows in
  `src/rules/catalogs`; rules for one desktop assistant's local session
  data, VM bundles and updater cache are not among them.
- `tests/` — scenario tests of the library.
- `app/` — the shell around it: file-system, process and clock access, the
  JSON encodings of local records, and the command handlers.

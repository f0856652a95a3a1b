# tuzi_switch

The development-cache manager and Codex language switch of the TuZi Switch
desktop app, as a Verus-verified library.

- `src/` — the verified library: the path model and comparisons, cache-root
  validation, cache routing and session layout, scan and clean bookkeeping,
  the global-environment plans with their backup, and the Codex locale edit.
- `tests/` — tests of the library on concrete values.
- `app/` — the unverified shell: file system, registry and configuration
  access, and the commands the front end calls.

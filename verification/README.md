# warden11

The verified core of WARDEN-11, an authorized cyber patrol workbench:
passive web posture review, local secret scanning, password hygiene,
hash-format inventory and case reports.

- `src/` is the library, written and proved with Verus. Each module states
  its behaviour as `requires`/`ensures` contracts over mathematical models
  (`Seq`, `nat`, spec functions), and the properties that span functions
  stand as `law_*` proof functions.
- The trusted code is small: `src/ext.rs` wraps the `regex`, `url` and
  `serde_json` crates, and `src/text.rs` wraps `String::push`,
  `str::to_lowercase` and `str::to_uppercase`, and `src/clock.rs` reads
  the clock through `chrono`, claiming only the shape of the time text.
  Their contracts are believed,
  not proved; each says in its doc comment what it claims.
- `tests/` exercises the library on concrete values.
- `app/` is the `warden11` command line: case folders, the SQLite store,
  HTTP requests, the directory walk, the clock and JSON serialization.

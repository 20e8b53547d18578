# taskstream_core

The verified core of `laba`, a command-line client for OpenProject (and a
read-only GitHub task view through the `gh` CLI): server profiles and their
configuration file, request building and paging decisions, reference
resolution, HAL field extraction and custom fields, the GitHub task and
notification listings, download size and digest tallies, the timelog planner
(with its holiday calendar), the assignee history,
the update checker's release filtering, the tray badge renderer and the
duration grammars. Each function's behaviour is stated in a contract over
mathematical models and proved by Verus.

Layout:

- `src/` — the library, all of it verified. Calls into outside crates
  (serde_json, chrono, chrono-tz, semver, reqwest's URL parser, sha2) stand behind
  small trusted wrappers whose contracts say what each call returns.
- `tests/` — ordinary Rust tests of the library, run against the real
  outside crates.
- `app/` — the `laba` binary: argument parsing (clap), files and the token
  store (keyring), HTTP (reqwest, tokio), the `gh` process, and the
  fractional-hour arithmetic. It hands plain values to the library and
  prints what comes back.

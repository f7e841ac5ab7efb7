# zkteco_bridge

A bridge between ZKTeco / SenseFace biometric attendance devices and an HRMS
webhook, with its logic proved in Verus.

The bridge pulls attendance from ZKTeco devices over TCP or UDP, turns the
records into HRMS events, uploads them in batches with retries, and clears a
device only after HRMS accepted what was read from it. It also receives
SenseFace / ADMS pushes, keeps them in a store and forwards them, answers a
small HTTP API, runs HRMS jobs (template pulls and user pushes), and offers a
terminal dashboard, a setup wizard, a network scanner and service management.

## Layout

- `src/` is the library, verified by Verus. Every function states in its
  contract what it returns or changes. Calls to devices, HRMS and the
  SenseFace store go through port traits, and the verified code records each
  call and its answer, so the contracts can say which calls were made, with
  what, and what followed from the answers. The sync safety rule, the retry
  policy, the device protocol (packets, checksums, buffered reads and
  writes), the push parser and the forwarding pass are all stated there.
- `src/json_text.rs` and a few small wrappers hold the calls into outside
  crates (chrono, chrono-tz, base64, sha2, serde_json) and std; their
  contracts say only what those crates document.
- `app/` is the program around the library: command-line parsing, files,
  sockets, threads, the SQLite store, the HTTP client, the terminal UI and the
  process management. It hands the library plain values and acts on what the
  library decides.
- `tests/` runs the library on concrete inputs, with fake devices and fake
  HRMS endpoints where a test needs them.

# mado

The core of the Mado Minecraft launcher, written in Verus and verified.

- `src/` is the library. Each public function states in its contract what it
  returns or changes, except the ends of the service's channels (sending an
  input, receiving an event), whose results depend on other threads. Each
  `law_*` proof function states a property that spans several calls:
  - `plan`, `config`, `event`, `errors`: download plans and their configuration.
  - `manager`, `manager_laws`: the download manager state machine (a model
    function per operation, and the invariants it keeps).
  - `service`: the manager joined to a backend and driven through channels.
  - `storage`, `verify`: partial-download records, resume decisions, transfer
    progress, and artifact size and checksum checks.
  - `java_metadata`, `java_runtime`: reading a Java runtime's `release` file or
    probe output, and classifying its version, vendor and architecture.
  - `icon_name`: Rust variant names for icon files.
  - `hover`: the launcher page's avatar hover and tooltip timing.
  - `xtask`: the decisions of the fuzzing and mutation-testing tasks.
  - `keyed`, `text`: string-keyed maps and sets, and text helpers.
  - `external`: the trusted boundary. It declares outside types and wraps the
    outside functions that the library calls (SHA-1, SHA-256, hex, paths,
    channels). Their contracts are believed, not proved.
- `app/` holds what Verus does not see: the `xtask` command line, file and
  network I/O (the HTTP backend, storage on disk, Java detection), and copies
  of library types that carry serde or thiserror derives.
- `tests/` exercises the library through its public interface.

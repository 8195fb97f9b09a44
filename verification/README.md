# maestro

Maestro orchestrates a team of AI personas through a gated micro-project
lifecycle (ideation, planning, approval, instrumentation, execution,
verification), persists each finished run as a numbered release, and serves a
line-delimited JSON protocol to a terminal UI.

## Layout

- `src/` — the library, verified with Verus. Public functions state their
  results in `ensures`; where a result comes from code the library does not
  see (a tool registry that users implement, the Unicode case tables, the
  standard hasher), the contract names or bounds it instead. The
  cross-function laws are public proof functions named `lemma_*`.
  - `domain/` — agent ids, messages, personas, routing, the lifecycle state
    machine, rollback plans, configuration and its validation, governance
    entries, memory, the scratchpad, tools, and the ports.
  - `application/` — orchestration sessions, model routing, persona agents,
    metrics and narration, the governance service, release persistence, tool
    dispatch and creation wizards.
  - `infrastructure/` — provider endpoints, request shaping and status
    mapping, the provider registry, configuration lookup, the built-in tools'
    rules, the bus's replay history and system diagnostics.
  - `presentation/` — the command line's decisions and the IPC protocol's
    message types and command routing.
  - `text.rs` — string primitives over the character view of `str`.
  - `domain/models/str_map.rs` — `StrMap`, a string-keyed map kept in
    ascending key order. It stands where an ordered map keyed by `String`
    (`BTreeMap<String, _>`) is needed: the standard maps keyed by strings
    carry no specification that proofs can use, so the library keeps a
    sorted vector of pairs whose order and contents it proves.
- `app/` — the executable shell: argument parsing, terminal, file, process
  and network I/O, the asynchronous agent runtime and the IPC loop.
- `tests/` — tests of the library.

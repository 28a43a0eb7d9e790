# boab

A post-quantum-cryptography readiness tool: it discovers cryptography in
codebases, TLS endpoints and certificate stores, keeps a deduplicated
inventory of crypto assets tied to business systems, scores each asset on
the ASD LATICE rubric, plans the migration towards the 2026 / 2028 / 2030
milestones, and reports (native JSON and a CycloneDX 1.6 CBOM).

## Layout

- `src/` is the library, verified with Verus. Every function there carries a
  `requires` / `ensures` contract over spec functions and views.
  - `scoring`: the rubric's dimension scores, priority, triage tier and
    recommended action.
  - `dedup`: promotion of scan findings into the inventory, with its laws
    (re-promoting a scan's findings adds nothing, for every finding kind the
    scanners report; user-set fields survive).
  - `plan`: transition plans, their regeneration with user edits kept, and
    the law on the rows a plan holds.
  - `model/`: the data model; `model/vendor` holds the vendor registry and
    the laws of merging overrides.
  - `scanners/`: what each scanner makes of what it reads (a file's bytes, a
    certificate's DER, a TLS handshake's outcome).
  - `report`, `runner`, `workspace`, `config`, `storage`: the decisions of
    the subcommands, the workspace layout and the configuration keys.
  - `clock`, `digest`, `text`: identifiers and instants, SHA-256
    fingerprints, character-level text helpers.
  Calls into outside crates (uuid, time, sha2, serde_json, x509-parser,
  regex, p12-keystore) go through small trusted wrappers whose doc comments
  say what their contracts claim.
- `app/` is the command-line program: argument parsing, file and network
  I/O, the TLS handshakes, serialisation, and the tables it prints. It hands
  the library plain values and takes plain values back.
- `tests/` runs the library with the outside crates linked.

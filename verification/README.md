# agentpacknest

`pn` packages a coding agent (currently Pi) into a portable bundle: its
configuration, memory, packages and encrypted secrets, described by a
`manifest.yaml`, protected by a payload checksum and an Ed25519 signature over
the canonical manifest.

## Layout

- `src/` — the library, verified with Verus:
  - `domain/` — the manifest model and its validation, bundles, components,
    harness identifiers;
  - `security/` — the encrypted secrets envelope (Argon2id + AES-256-GCM),
    the secrets collection, payload integrity (SHA-256) and signing;
  - `harness/` — detection results, launch resolution and the registry of
    harnesses (Pi, Aider);
  - `application/` — the decisions of `init`, `pack`, `run`, `info` and
    `diff`: which contents to pack, how trees are copied, whether a bundle
    may run, its freshness, its environment, its reproducibility report;
  - `utils/ignore.rs`, `calendar.rs`, `text.rs`, `sorting.rs`,
    `pairmap.rs` — ignore patterns, timestamps, string and ordering helpers.
- `app/` — the `pn` program: argument parsing, the filesystem, prompts,
  YAML/JSON serialisation, archives and process spawning.
- `tests/` — tests of the library.

Calls into the cryptographic and encoding crates go through small trusted
wrappers whose contracts name what the crate computes; everything built on
them is proved.

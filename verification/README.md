# maranode

The decision logic of a privacy-first local AI runtime, written in Verus and
proved against its contracts: the firewall rules that keep a machine
air-gapped, request admission and model eviction, when generation stops,
the daemon's configuration and what a reload may change, roles and data
classification, GGUF metadata, signatures and digests, audit exports and
reports, and the text the command-line client prints.

Layout:

- `src/` — the verified library; each module states its contracts over
  mathematical models (`Seq`, `Map`, spec functions), and the public proof
  functions (`lemma_*`) state properties that span several operations.
- `tests/` — executable tests of the library.
- `app/` — the `maranode` client and `maranoded` daemon around the library:
  argument parsing, files, processes, sockets, serde formats and the
  llama.cpp engine.

Calls into outside crates (SHA-256, base64, Ed25519, `std` string case
mapping and UTF-8 decoding, constant-time comparison) sit behind small
trusted wrappers whose contracts are documented where they are declared.

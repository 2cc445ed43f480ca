# toml_manifest

Reads a package manifest (`Cargo.toml`) into a model of the package: its
project id, its targets with their build profiles, its dependencies and
their sources, its build commands, and the manifest keys it does not use.

- `src/` is the verified library (Verus):
  - `paths.rs`: file names, stems, extensions, normal forms of paths, joining;
  - `model.rs`: profiles, targets, sources, package ids, dependencies, the manifest, errors;
  - `schema.rs`: the tables a manifest may hold;
  - `toml_value.rs`, `decode.rs`: TOML values, reading the tables out of them, unused keys;
  - `layout.rs`: where a package's files are and the targets they imply;
  - `normalize.rs`: target entries to targets, one per build profile;
  - `manifest.rs`: tables to the package model, dependencies;
  - `read.rs`: bytes to text to TOML to manifest, parse error reports;
  - `laws.rs`: properties of the library as a whole.
- `app/` lists a package's directories and reads its `Cargo.toml` from disk.
- `tests/` runs the library on concrete manifests.

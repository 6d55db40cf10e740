# riddle_metadata

Verified rules for reading Windows metadata method signatures, written in
Verus.

- `src/model.rs` — the library's own record of metadata: types as
  `TypeModel` trees, type definitions, methods and parameters in a `Metadata`
  table, and its well-formedness.
- `src/reader.rs` — what the library decides when its records are read from
  files: where each file's rows stand among all of them, and which attribute
  arguments are decoded.
- `src/attributes.rs`, `src/types.rs` — what custom attributes and types say
  about a parameter (arrays, blittable and borrowed types, callbacks, sizes).
- `src/params.rs` — the passes that link array parameters to their length
  parameters and classify the rest, with the laws they keep.
- `src/signature.rs` — method signatures and their calling patterns.
- `src/sharing.rs` — interface handles and constants of the Windows Media
  library sharing services.
- `app/` — file reading, the reads through the `windows_metadata` crate that
  fill a `Metadata` (its readers panic on malformed files, which the library
  cannot rule out beforehand), and the mapping between its rows and the
  library's positions.

# irig106-tmats

A TMATS (IRIG 106 Chapter 9) parser, serializer, validator, generator and
repairer, verified with Verus.

## Layout

- `src/` — the verified library.
  - `text.rs` — ASCII case, whitespace trimming, decimal numbers, the
    floating-point literal grammar.
  - `ordered_map.rs` — the insertion-ordered map of occurrence indices,
    kept in an `indexmap::IndexMap` behind trusted wrappers.
  - `types_bridge.rs`, `error.rs`, `model.rs` — versions, data type codes,
    group letters, errors and diagnostics, the document model.
  - `parse.rs` — tokenizing `code:value;` bytes and structuring the tokens
    into a document.
  - `serial.rs` — the canonical attribute list of a document and its text.
  - `round_trip.rs` — what parsing reads back of serialized text: the
    attributes themselves, the G-group fields, the counters and the
    recorder channels.
  - `ch10.rs` — Chapter 10 setup-record payloads.
  - `version.rs` — the attribute registry and version migration.
  - `validate.rs`, `repair.rs` — the validation rules and the repairs.
  - `query.rs` — channel resolution, enumeration and document comparison.
  - `generate.rs` — building a document from a channel inventory.
  - `xml.rs` — TMATS XML, written and read with `quick_xml` behind trusted
    wrappers.
  - `xml_read_back.rs` — what the XML reader's state machine makes of the
    events the XML writer emits.
  - `cli.rs` — the command-line tool's version line and usage text.
- `tests/` — scenario tests.
- `app/` — what stays outside the verified library: the WebAssembly
  bindings, serde copies of the document types, attribute values with
  floating-point numbers, and the `tmats` command-line scaffold.

Each public function states in `ensures` what it returns over spec
functions of the model (`parse_spec`, `serialized_text`, `validation_diags`,
`repaired`, ...); the laws that relate several functions are the public
`law_*` proof functions.

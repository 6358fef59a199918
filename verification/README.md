# hello_tofu

Typed Terraform/OpenTofu infrastructure in Rust, with its logic verified by
Verus.

- `src/` — the verified library:
  - `schema_bindgen/` — the container-format data model (`format`), the
    generator options (`config`) and the Rust source emitter (`emit`), whose
    output is specified character by character by `generated_code`;
  - `binding_generator`, `config_generator`, `schema_binding_generator` —
    generation options, resource filters and the decisions of the roundtrip
    pipeline (required providers, per-target generators);
  - `config_exporter`, `json` — building a Terraform JSON configuration;
  - `terra` — providers, resource metadata and filters;
  - `text`, `indent` — string helpers and the indenting output buffer;
  - `providers/` — typed resource bindings.
- `app/` — files, the `tofu` command, serde serialization and the
  serde-reflection data model, around the library.
- `tests/` — tests of the library on concrete values.

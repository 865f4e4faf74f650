# Tiny Decision core

A local harness for System One decision models: typed questions, calibrated
confidences, decision pipelines, MCP tool export and a local REST API.

- `src/` is the library, verified with Verus: calibration counting and
  isotonic pooling, McNemar's test, adversarial probes, pipeline navigation
  and the run walk, the pipeline cache, the SOMI auto-router, MCP tool
  planning and script export, the hot model registry, Hub addresses and
  format detection, the access token file, download sessions with their
  SHA-256 check, plugin manifests and schema migrations.
- `tests/` exercises the library on concrete values.
- `app/` is the `td` command line and the runtime around the library: HTTP
  server, SQLite, Hub downloads, model adapters and the floating-point
  calibration fits.

String-keyed tables (the hot model registry, the pipeline cache and the
secret store) use the library's own `KeyedTable` rather than std's
`HashMap<String, _>`: Verus accepts calls on a `String`-keyed `HashMap` but
proves nothing about what they return, whereas `KeyedTable` keeps its keys
unique and its operations are proved against a `Map` view.

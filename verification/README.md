# pytracing

A Python extension module, `tracing`, that sends Python events and spans to Rust's
`tracing` ecosystem, with its decision logic verified by Verus.

- `src/` is the verified library: interning of names (`leak`), Python signatures and
  argument binding (`signature`), the planning of instrumented functions (`instrument`,
  `ret_log`), callsites (`callsite`, `introspect`, `level`), messages and values (`event`,
  `template`, `formatting`), and the configuration of formatting layers (`layer`).
- `app/` is the Python-facing glue built with PyO3: module registration, reading Python
  objects, calling into `tracing`, `tracing-subscriber` and `tracing-appender`.
- `tests/` exercises the library on concrete values.

# ngx_mixer

The verified core of an nginx module that reports requests to, and checks
them with, an Istio mixer server.

- `src/` is the library, verified with Verus: status codes and options, the
  attribute sets and their two wire forms (the global and per-message word
  dictionaries of the compressed form, and the in-message dictionary of the
  older form), the attribute header codec, the check cache with its
  signatures and entries, the mixer client's check decisions, and what the
  nginx handlers compute from a request, its response and the module's
  configuration.
- `tests/` runs the library on concrete values.
- `app/` is the nginx side around it: conversions from the values nginx,
  `std` and protobuf hold, the handlers that assemble attribute sets and hand
  them to the transport, and the background thread that sends reports.

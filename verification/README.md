# aperture

The verified core of the Aperture gateway and of its DiceBear-compatible
avatar renderer, written in Verus.

- `src/dicebear`: the key-based PRNG (FNV-1a over UTF-16 seeding Mulberry32),
  palette color resolution, XML escaping, number rendering and the two-pass
  SVG serializer.
- `src/tasks`: the task system's bookkeeping: progress records, errors and
  their messages, the running-task registry, the record a finished body
  leaves and what awaiting it gives back, and the automation loop's
  decisions.
- `src/gateway`: listener configuration, the HTTP-to-HTTPS redirect, TLS
  certificate policy, the routing of log fields, and the log writer's
  decisions (when to flush, what a flush writes, how the dropped-record
  count is kept).
- `app/`: what stays outside the verifier: floating-point geometry and
  color math, socket addresses, serde and tracing integration.
- `tests/`: executable tests of the library.

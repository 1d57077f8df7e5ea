# rally

Rally launches and supervises local development processes described in
`rally.toml`, serves a dashboard, and accepts control commands (`start`,
`stop`, `restart`, `enable`, `disable`) from the command line of another
`rally` process.

The crate is a Verus project. `src/` is the verified library:

- `cli` — the command-line grammar, help and version output, and the
  precedence of config path sources;
- `config`, `env_map`, `interpolate` — the configuration model, `${VAR}`
  interpolation with cycle detection, and the resolution of the shared and
  per-app environments over the base environment;
- `env_command`, `env_output` — the env provider command: where it runs,
  what each failure is reported as, the stderr summary, and the parsers of
  its shell and (entry by entry) JSON output;
- `deps` — the start and stop order of apps from `depends_on`, with proofs
  that the order respects every dependency and that a reported cycle admits
  no order at all;
- `process` — the supervision record of one process and its transitions;
- `control` — the control API's URLs, status codes and replies, and the
  runtime enabled flags;
- `telemetry`, `ui` — sink events and the dashboard page.

`app/` is the program around it: file and process I/O, the async
supervisor, the HTTP server and client, and the telemetry sink.

# yadgar-project

The project registry's logic tier. It holds no store: it reaches its data over
`ProjectDbService` and serves `ProjectService`'s two calls, `ListProjects` and
`ResolveProject`.

## Layout

- `src/` — the verified library. Every rule of what the tier sends to the
  store and what it answers stands there with its contract:
  - `wire.rs` — the messages, as plain values;
  - `reserved.rs` — the guard for the bare reserved segment `local`, folded for
    ASCII case;
  - `service.rs` — the placeholder scope, the telemetry scope, the requests sent
    to the store, the answers to callers, and the pass-through of store failures
    (code kept, message withheld);
  - `knob.rs` — required configuration knobs and the store's port number;
  - `laws.rs` — what holds across calls and for every input: pages compose,
    status never decides membership, no reserved path survives, one condition
    carries one code across both tiers, and the store's own words never reach a
    caller.
- `tests/` — the library's tests.
- `app/` — the server: environment, the gRPC wire types and transport, the
  lazy dial, telemetry, signals and the bounded drain.

# mcsim

The verified core of a simulator for MeshCore LoRa mesh networks, written in
Verus: the functions in `src/` carry contracts that Verus proves. Four small
wrappers around outside calls are trusted rather than proved, each with a doc
comment saying what its contract claims: `sha256_digest` (`sha2`),
`seeded_rng` (`rand_chacha`), `duration_as_secs` (`Duration::as_secs`) and
`string_push` (`String::push`).

## Layout

- `src/header.rs`, `src/payload.rs`, `src/packet.rs`: MeshCore packet
  headers (route, payload type, version, transport codes), payload types and
  flags, packets and their payload hash (SHA-256 through the `sha2` crate).
- `src/sim_time.rs`, `src/common.rs`: simulation time, identifiers, LoRa
  packets and the events radios exchange.
- `src/context.rs`: simulation events and the context entities post them
  through (event ids from one counter, never reused).
- `src/lora.rs`: default radio parameters, time on air, collision checks.
- `src/links.rs`: the link model: which radios hear which, receivers in
  increasing id order.
- `src/radio.rs`: the radio as a state machine from state and input to next
  state and actions; the caller performs the actions.
- `src/event_loop.rs`: the decisions of the event loop: the queue that hands
  out the earliest event, when the loop stops, the clock, the events posted
  while handling one, the statistics, and when metrics are evicted. The loop
  that dispatches to the entities stands outside.
- `src/model.rs`: merging layered network models (defaults, nodes and edges)
  and checking that every edge joins known nodes.
- `src/setup.rs`, `src/plan.rs`: building a simulation: which firmware a
  node's `firmware_type` names, the entity ids of each node's radio,
  firmware and agents, the timers that start them, each companion's
  contacts, direct-message targets and channels, and the links.
- `src/properties.rs`: the property registry: names, aliases, scopes, value
  types, built-in defaults, namespaces, and property sets whose values are
  checked against the property's type.
- `src/trace.rs`: what the event trace records: origin names, reception
  status, timestamps.
- `src/firmware.rs`: firmware simulation parameters, firmware kinds, and the
  byte strings exchanged with the firmware's C interface.
- `src/metric_spec.rs`, `src/glob.rs`, `src/metrics_export.rs`, `src/assoc.rs`:
  metric specifications (`name/label/label`), glob matching, metric keys and
  their labels, breakdown grouping and counter aggregation.
- `src/duration.rs`: the grammar of duration arguments (`1d2h30m45s`).
- `src/stats.rs`, `src/text.rs`: simulation statistics, formatting helpers.
- `tests/`: tests of the library on concrete values.
- `app/`: the `mcsim` program (`properties`, `check`) and ordinary Rust
  around the library: the event loop that dispatches to entities, model file
  loading, the in-memory recorder for the
  `metrics` facade, JSON/Prometheus/CSV export, the floating-point side of the
  radio, duration parsing, and the loading of the firmware libraries.

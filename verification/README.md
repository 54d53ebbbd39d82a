# CrowdSec bouncer for Envoy

A bouncer that runs inside Envoy as proxy-wasm plugins. An updater streams decisions from the
CrowdSec API and hands them to the filters; a filter turns banned clients away and may ask a WAF
about the others.

- `src/` is the logic, verified with Verus. Contracts speak of plain values: addresses and networks
  are numbers, texts are sequences of characters, payloads are sequences of bytes.
- `app/` holds the plugins: what talks to the proxy, and what reads and writes YAML, JSON and
  FlexBuffers.
- `tests/` runs the library on concrete values.

What the two sides owe each other is stated in `src/agreement.rs`: a filter that carries out the
messages of the updater, in whatever batches, ends with the bans that the updater holds, as long as
no ban is lifted on a network that overlaps another one in force.

While the API cannot be reached, bans end by the times that their decisions gave: the same file
states this of every state that the updater can reach. `src/http.rs` states that a banned client is
turned away in every phase of a request, also where the WAF is asked first.

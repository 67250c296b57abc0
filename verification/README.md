# pact_engine

A Verus-verified library for the matching engine and the test-data generators of Pact
contract tests: execution plans that compare an actual HTTP request with an expected one,
generators that make values for requests and bodies, and the small pieces around them
(form bodies, provider state expressions, date patterns, plugin configuration, log buffers,
the provider verifier's command line decisions, and the mock server's failure report).

## Layout

- `src/` — the verified library. Each module states its behaviour in `requires`/`ensures`
  over mathematical models (`Seq`, `Map`-like entry sequences, `int`), and Verus proves it.
  - `plan`, `value`, `result`, `docpath`, `rules`, `context`: the plan tree and its values.
  - `bodies`, `request`: building plans for text and JSON bodies and for requests.
  - `actions`, `exec`: executing plans (`walk_tree`) and every action node.
  - `generators`, `datetime`, `expressions`, `form_urlencoded`: generators and their inputs.
  - `plugins`, `logging`, `cli`, `mock_server`: configuration and reporting decisions.
  - `laws`: properties that span several operations, as proof functions.
  - `outside`, `json`, `text`: the trusted wrappers around outside crates and `std`, each
    with the contract the rest relies on, and small verified text helpers.
  - `base64`: the standard Base64 text of bytes, specified and verified.
- `tests/` — ordinary Rust tests of the library.
- `app/` — the unverified surroundings: JSON values from and to `serde_json`, the
  process-wide log buffers, the verifier's command line parser and logging set-up, and the
  mock server's terminal and environment reads.

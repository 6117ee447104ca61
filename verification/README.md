# secure_json_parse

Parse untrusted JSON and detect the two key patterns that pollute a
JavaScript object's prototype: a `__proto__` key, and a `constructor` key whose
value is an object holding a `prototype` key. For each pattern an `Action`
says whether to reject the input, remove the key, or ignore it; a `safe` flag
turns a violation into `Ok(None)`.

The library is written in Verus and verified.

- `src/json.rs`: the value tree `JsonValue` and its model `Json`.
- `src/policy.rs`: what a scan decides, as spec functions over the model
  (`hits`, `cleaned`), and the lemmas about them.
- `src/scan.rs`: the walk, iterative so that deep trees never exhaust the
  stack, proved against `hits` and `cleaned`.
- `src/drain.rs`: freeing discarded subtrees without recursion.
- `src/parse.rs`: byte order mark handling, the calls into `serde_json`, and
  the parse entry points.
- `src/laws.rs`: properties of the library as a whole.
- `app/`: `serde_json::Value` interop and the std error traits.

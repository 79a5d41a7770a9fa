# rust_proxy

An HTTP/HTTPS forwarding proxy whose rules are verified with Verus.

- `src/` is the verified library: route matching in configuration order,
  prefix stripping and target-URL construction (`router`), bearer-token
  validation and rewriting (`token_validator`), the log lines that validation
  reports (`validation_log`), configuration defaults and
  command-line overrides (`config`), errors and the responses that answer them
  (`error`), the forwarding URL and `Host` header (`proxy`), a fixed
  demonstration router (`simple_test`), and proved properties (`laws`).
- `app/` is the program around it: command-line parsing (clap), reading the
  YAML file (serde_yaml), and the network side (tokio, hyper, hyper-rustls).
- `tests/` runs the library on concrete inputs.

## Data structures in the library

- A router keeps its validators in a `Vec`, with the type invariant that no two
  guard the same route path, in place of a hash map keyed by path; the
  validators it builds are exactly those a map would hold after inserting one
  per route with token rules, in order.
- A validator keeps its accepted tokens in a `Vec<String>` in place of a hash
  set; only membership is ever asked of it.
- A validator's success count is a plain `u64` changed through `&mut self`
  (wrapping at `u64::MAX`, as an atomic add does) in place of an atomic
  counter: Verus reasons about atomics only through tracked ghost state.
  The program shares the router behind a read-write lock and takes it
  exclusively only for routes that run a validator.
- With `String` keys, Verus proves nothing about the standard hash
  collections' contents, which is why the contracts are stated over these
  `Vec`s instead.

# lynx

The decision-making core of the Lynx container platform, verified with Verus:
the compose engine (file merging, `extends`, start order, container plans,
lifecycle plans), the host agent (command authorisation, nftables rendering,
tenant setup, WireGuard data plane, host metrics) and the dashboard (request
validation, rate limits, firewall chains, audit chains, certificates, key
wrapping, migration and domain state).

Layout:

- `src/` — the verified library. Verus proves every function in it; the
  public ones state their results in contracts over `Seq`/`Map` models
  (all but the random data key, of which nothing more can be said); calls into outside crates (hashing, AES-GCM,
  Ed25519, base64, randomness) go through small trusted wrappers whose doc
  comments say what is assumed of them.
- `tests/` — ordinary Rust tests run against the compiled library.
- `app/` — the unverified runtime around the library: YAML parsing, file
  and process I/O, and the loops that hand the library's plans to a
  container runtime.

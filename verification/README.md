# armature-discovery

Service discovery with three backends: a table in memory, Consul, and etcd.

- `src/` is the library. It decides everything on plain values: the requests that a backend is
  sent, what its replies mean, the keys that etcd stores registrations under and the ranges that
  scans cover, the steps of a registration, and the in-memory table. Every function carries a
  contract that Verus proves, but for nine wrappers around outside calls, whose contracts are
  believed. The laws that relate several functions stand beside them as proof functions.
- `app/` holds the asynchronous clients: they send the library's requests over HTTP, hand the
  replies back, and keep leases alive.
- `tests/` runs the library.

The calls into `url`, `base64` and `serde_json` stand behind small wrappers in `src/address.rs`,
`src/codec.rs` and `src/document.rs`, which are the nine; the comment above each says what is
believed of it.

`discover` gives every registered instance of a service. Consul is asked to leave out those whose
health checks do not pass; etcd drops the instances whose process died, one lease lifetime later;
the table in memory keeps what it holds until it is deregistered.

# walgit_coord

Coordination over a versioned object store: a compare-and-swap update loop and
renewable, fenced leases, verified with Verus.

Every protocol is a state machine. A caller performs the store requests, the
sleeps and the clock readings that a machine asks for, and hands the replies
back.

- `src/` is the verified library.
  - `cas`, `message`: the read-modify-write loop, and reading messages.
  - `lease`, `guard`, `acquire`: the stored record, a held lease, taking one.
  - `instance`: the identity by which a process holds leases.
  - `store`, `time`, `error`, `text`: the vocabulary the rest is written in.
  - `model`, `world`: a model of the store, and of one lease with everyone who
    ever held it, where requests and answers come late or get lost.
  - `cas_laws`, `contention_laws`: no update is lost, and contending updates that
    have a retry for each other all succeed.
  - `lease_laws`, `guard_laws`, `renewal_laws`: fencing tokens increase; a
    confirmed release leaves nothing in the holder's name; of many contenders for
    a lease exactly one wins; and leases are exclusive while clocks stay within
    the skew tolerance and no heartbeat cuts a lease short before its sender
    knows.
- `app/` drives the library asynchronously over an object store, on Tokio, with
  protobuf messages.
- `tests/` runs it against an in-memory store and a simulated clock.

# puressh

An SSH client library whose protocol logic is verified with Verus.

The library in `src/` never touches a socket, a file, a clock or a thread. It
takes bytes and events and says what to send and what to do next; every
function states what it returns, and Verus proves it.

- `format`, `text`: the wire format of RFC 4251, and strings as sequences of
  characters.
- `channel`: the connection protocol of RFC 4254. `channel::model` is what a
  connection is as a mathematical state, `channel::state` the code,
  `channel::laws` what holds of two peers that talk to each other, and
  `channel::history` what holds of a channel over all that happens to it.
- `cipher`, `compress`: the cipher suites and the zlib streams, on top of
  `purecrypto` and `compcol`.
- `config`: `ssh_config` and `sshd_config`, with `Match`, `Include`, algorithm
  lists and address patterns.
- `driver`: version exchange, key re-exchange and keepalive.
- `client`: sessions, byte streams, forwarding, host keys, terminal modes and
  copying, for blocking, asynchronous and readiness-driven frontends.
- `transport`: message numbers, PING, and the algorithm catalogue.

`app/` is the code around it: sockets, threads, files, child processes and the
terminal. `tests/` runs the library on concrete values.

What Verus does not prove are the contracts of the functions marked
`external_body`, each of which wraps one function of an outside crate or of the
standard library, and of the one function of the standard library that
`assume_specification` gives a contract to. Each says in its comment what is
claimed. The types of outside crates that these functions work on are declared
beside them, as opaque.

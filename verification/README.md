# next_socks5

A SOCKS5 server (RFC 1928, RFC 1929) whose rules are proved with Verus.

`src/` is the library: everything that the server decides and computes, with no
IO. Each public function states in its contract what it returns or changes, and
public proof functions state what holds of the library as a whole.

- `protocol` — greetings, username/password messages, requests, replies and UDP
  datagrams as bytes, with proofs that reading undoes writing.
- `server` — the negotiation with a client, the search for a connection, the
  course of CONNECT requests and UDP associations, the relays, admission caps.
- `metrics`, `mock` — counters, the connection registry, synthetic load.
- `admin` — frames, the replay ring, how the admin socket is claimed, what attach
  clients are sent.
- `tui` — the log ring and the texts of the dashboard.
- `config`, `dns`, `auth`, `error`, `net`, `text`, `bytes`, `ring` — settings and
  the parts that the others share.

The state machines of `server` and `admin` are driven one step at a time: the
caller does the IO that a step asks for and hands back how it went. Instants are
plain nanoseconds that the caller reads off one clock.

Two functions of std are used on trust, each behind a wrapper that says what is
relied on: `std::str::from_utf8` in `bytes`, and `std::io::Error::kind` in `error`.

`app/` is the program around the library: the command line, the TOML file,
sockets, DNS, timers, the terminal. `tests/` runs the library on concrete values.

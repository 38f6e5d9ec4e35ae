# ip-bypass-plus-frag

A TCP relay for IPv4 that gets a client's TLS ClientHello past packet inspection by cutting it
into pieces, and keeps the client's own SNI. It scans a list of addresses, picks one target or a
pool of them, and relays every connection.

The logic is a Verus library: each function states in `requires` and `ensures` what it does, and
Verus proves it.

## Layout

| Path | What it holds |
|------|---------------|
| `src/config.rs` | the configuration, its rules and its texts |
| `src/addr.rs`, `src/text.rs` | addresses, networks and text |
| `src/flow.rs`, `src/handler.rs`, `src/methods.rs` | tracked flows, the packet handler, bypass methods |
| `src/proxy.rs`, `src/session.rs`, `src/relay.rs`, `src/fragment.rs` | the address pool, the course of a connection, the relay, pieces of data |
| `src/scan.rs`, `src/startup.rs`, `src/headless.rs`, `src/embed.rs` | scan results, the start, runs without a terminal, the C interface |
| `src/menu.rs`, `src/dashboard.rs`, `src/format.rs` | menus, the live view, how numbers are shown |
| `tests/` | tests on concrete values |
| `app/` | sockets, files, the terminal, the command line and the C functions |

The sessions, the relay, the start and the end of the proxy are state machines: the program in
`app/` does the waiting, reading and writing, hands the library what happened, and does what the
library answers.

## What is trusted

`String::push` of the standard library; `Ipv4Net::contains`, `Ipv6Net::contains` and
`IpNet::from_str` of `ipnet`; `SliceRandom::shuffle` and `Rng::gen_range` of `rand`. Each has a
small wrapper or declaration whose doc comment says what is taken from it. How `ipnet` reads a
network's text is not described, only the words of its refusal; which order or number `rand`
picks is left to chance.

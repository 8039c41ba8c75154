# luanti_proto_bot

A minimal client and bot for Luanti servers.

- `src/` is the library. It holds the wire formats, packet framing and reassembly,
  SRP authentication, node definitions and map blocks, the tasks of the bot (mining,
  transfers, crafting), its navigation, chat orders, and the HTTP interface. All of
  it is verified with Verus.
- `app/` is the command line program: sockets, clocks, threads and floating point
  arithmetic. It hands the library plain values. Numbers in single precision cross
  the border as bit patterns, and what depends on their arithmetic as facts.
- `tests/` runs the library on concrete values.

The library does no input or output. A connection collects what is to be sent in an
outbox; datagrams and times in milliseconds come in from outside.

What is trusted without proof are the wrappers around `serde_json`, `zstd`, `sha2`,
`num-bigint`, `rand` and a few functions of the standard library. Each says in its
comment what it claims.

# et

A remote terminal whose sessions outlive their connections. One binary serves
the client, the server, the terminal next to it, and a headless multiplexer.

- `src/` is the verified library. Parsers, rules and state machines stand
  there with their contracts; nothing in it reads, writes or waits.
- `app/` is the program around it. It performs the steps that the library
  names and hands back what came of them. `app/fabric.rs` is where the sibling
  crates of this program (wire protocol, transport, command lines, logs) come
  in.
- `tests/` runs the library on concrete values.

The library rests on a few facts about the standard library and `jiff`, which
stand as trusted declarations in `src/deadline.rs`, `src/ssh_process.rs`,
`src/text.rs` and `src/terminal_last_login.rs`.

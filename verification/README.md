# harnel

Harnel embeds an agent engine in a Rust process and exposes one control
surface to Rust code and to ACP clients (stdio and loopback TCP). This crate
holds its protocol core, each function with a proved contract:

- `frame`: newline-delimited JSON-RPC framing; the engine-output decoder and
  the peer reader, with the 1 MiB limit and round-trip and chunking lemmas.
- `broker`: request ids, the bounded set of outstanding requests, the single
  root turn, cancellation of abandoned turns, routing of host requests.
- `acp`: the attachment protocol (initialization, private methods, request
  ids, in-flight bound), the classification of engine messages, and the
  reading of peer frames and engine lines as JSON messages.
- `cli`: the `harnel` command line.
- `session`: answer collection (bounded in UTF-8 bytes) and login polling.
- `runtime`: configuration, providers, events and the subscriber's results.
- `tool`: tool outputs and the default handling of host requests.
- `toolchain`: checks for provisioning the Zig compiler (pinned table
  lookup, version, layout, download budget, SHA-256 checksum, xz
  decompression).
- `error`, `text`: the error type and its texts.

`app/` is the program around it: the native engine's C ABI, the async
runtime, sockets and stdio, the serde conversions of the library's types, and
the binary's `main`.
